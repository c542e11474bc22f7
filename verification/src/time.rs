//! The clock providers: `time.frozen`, `time.fuzzy` and `time.monotonic-stub`.
use vstd::arithmetic::div_mod::{
    lemma_div_is_ordered, lemma_fundamental_div_mod, lemma_fundamental_div_mod_converse,
    lemma_mod_bound, lemma_mod_decreases, lemma_mod_multiples_basic,
};
use vstd::prelude::*;
use vstd::string::*;

verus! {

/// The nanoseconds of a second.
pub const NANOS_PER_SECOND: u64 = 1_000_000_000;

/// A time of the wall clock.
#[derive(Clone, Copy, PartialEq, Eq, Structural, Debug)]
pub struct Datetime {
    pub seconds: i64,
    pub nanoseconds: u32,
}

/// A time that stands still.
#[derive(Clone, Copy, PartialEq, Eq, Structural, Debug)]
pub struct Frozen {
    pub now_seconds: i64,
    pub monotonic_ns: u64,
}

impl Frozen {
    /// The wall clock.
    pub fn now(&self) -> (now: Datetime)
        ensures
            now == (Datetime { seconds: self.now_seconds, nanoseconds: 0 }),
    {
        Datetime { seconds: self.now_seconds, nanoseconds: 0 }
    }

    /// The monotonic clock.
    pub fn monotonic_now(&self) -> (now: u64)
        ensures
            now == self.monotonic_ns,
    {
        self.monotonic_ns
    }

    /// A clock that stands still is as coarse as can be.
    pub fn resolution(&self) -> (resolution: u64)
        ensures
            resolution == u64::MAX,
    {
        u64::MAX
    }
}

/// A clock that goes on whenever it is looked at.
#[derive(Clone, Copy, PartialEq, Eq, Structural, Debug)]
pub struct Clock {
    pub counter_ns: u64,
    pub step_ns: u64,
}

/// The start and the step of a clock that was not configured.
pub const DEFAULT_START_NS: u64 = 0;

pub const DEFAULT_STEP_NS: u64 = 1_000_000;

/// The later time, as far as the counter goes.
pub open spec fn later(counter: u64, by: u64) -> u64 {
    if counter + by > u64::MAX {
        u64::MAX
    } else {
        (counter + by) as u64
    }
}

/// A number of nanoseconds as a time of the wall clock, from its origin on.
pub open spec fn wall_of(nanos: u64) -> Datetime {
    Datetime {
        seconds: (nanos / NANOS_PER_SECOND) as i64,
        nanoseconds: (nanos % NANOS_PER_SECOND) as u32,
    }
}

/// The clock of a provider.
pub fn with_clock(state: &mut Option<Clock>) -> (clock: &mut Clock)
    ensures
        *old(state) matches Some(before) ==> *clock == before,
        *old(state) is None ==> *clock == (Clock {
            counter_ns: DEFAULT_START_NS,
            step_ns: DEFAULT_STEP_NS,
        }),
        *final(state) == Some(*final(clock)),
{
    if state.is_none() {
        *state = Some(Clock { counter_ns: DEFAULT_START_NS, step_ns: DEFAULT_STEP_NS });
    }
    state.as_mut().unwrap()
}

impl Clock {
    /// A look at the clock: what it shows, before it goes on.
    pub fn observe(&mut self) -> (observed: u64)
        ensures
            observed == old(self).counter_ns,
            *final(self) == (Clock {
                counter_ns: later(old(self).counter_ns, old(self).step_ns),
                ..*old(self)
            }),
    {
        let observed: u64 = self.counter_ns;
        self.counter_ns = self.counter_ns.saturating_add(self.step_ns);
        observed
    }

    /// The wall clock, which is a look at the clock.
    pub fn now(&mut self) -> (now: Datetime)
        ensures
            now == wall_of(old(self).counter_ns),
            *final(self) == (Clock {
                counter_ns: later(old(self).counter_ns, old(self).step_ns),
                ..*old(self)
            }),
    {
        let observed: u64 = self.observe();
        Datetime {
            seconds: (observed / NANOS_PER_SECOND) as i64,
            nanoseconds: (observed % NANOS_PER_SECOND) as u32,
        }
    }

    /// The step; asking for it is no look at the clock.
    pub fn resolution(&self) -> (resolution: u64)
        ensures
            resolution == self.step_ns,
    {
        self.step_ns
    }

    /// Sleeping makes the time pass.
    pub fn sleep(&mut self, duration_ns: u64)
        ensures
            *final(self) == (Clock {
                counter_ns: later(old(self).counter_ns, duration_ns),
                ..*old(self)
            }),
    {
        self.counter_ns = self.counter_ns.saturating_add(duration_ns);
    }
}

/// Neither a look nor sleep turns the clock back, and a look at a clock that has a step
/// and is not at its end is followed by a later one.
pub proof fn law_clock_never_goes_back(clock: Clock, by: u64)
    ensures
        later(clock.counter_ns, by) >= clock.counter_ns,
        by > 0 && clock.counter_ns < u64::MAX ==> later(clock.counter_ns, by) > clock.counter_ns,
{
}

/// The wall clock goes with the counter: a later count is no earlier time.
pub proof fn law_wall_follows_counter(one: u64, other: u64)
    requires
        one <= other,
    ensures
        wall_of(one).seconds <= wall_of(other).seconds,
        wall_of(one).seconds == wall_of(other).seconds ==> wall_of(one).nanoseconds <= wall_of(
            other,
        ).nanoseconds,
        wall_of(one).seconds * NANOS_PER_SECOND + wall_of(one).nanoseconds == one,
{
}

/// The granularity of a clock, at least one nanosecond.
pub fn configure_fuzzy(granularity_ns: u64) -> (result: Result<u64, String>)
    ensures
        match result {
            Ok(granularity) => granularity_ns >= 1 && granularity == granularity_ns,
            Err(said) => granularity_ns == 0 && said@ == "granularity-ns must be at least 1"@,
        },
{
    if granularity_ns == 0 {
        return Err(String::from_str("granularity-ns must be at least 1"));
    }
    Ok(granularity_ns)
}

/// A time of the wall clock, floored to a granularity, field by field.
pub open spec fn floored(datetime: Datetime, granularity_ns: u64) -> Datetime {
    if granularity_ns >= NANOS_PER_SECOND {
        let step = (granularity_ns / NANOS_PER_SECOND) as int;
        Datetime {
            seconds: (datetime.seconds - (datetime.seconds as int) % step) as i64,
            nanoseconds: 0,
        }
    } else {
        Datetime {
            seconds: datetime.seconds,
            nanoseconds: (datetime.nanoseconds - datetime.nanoseconds % (granularity_ns
                as u32)) as u32,
        }
    }
}

/// What a number is above the multiple of a step below it.
fn above_multiple(value: i64, step: i64) -> (rest: i64)
    requires
        step > 0,
    ensures
        rest == (value as int) % (step as int),
        0 <= rest < step,
{
    if value >= 0 {
        let rest: u64 = (value as u64) % (step as u64);
        proof {
            lemma_mod_bound(value as int, step as int);
        }
        rest as i64
    } else {
        let mirror: u64 = (-(value + 1)) as u64;
        let back: u64 = mirror % (step as u64);
        proof {
            lemma_mod_bound(mirror as int, step as int);
            lemma_fundamental_div_mod(mirror as int, step as int);
            let quotient = (mirror as int) / (step as int);
            assert(-(quotient + 1) * step == -(step * quotient) - step) by (nonlinear_arith);
            assert(value == -(quotient + 1) * step + (step - 1 - back));
            lemma_fundamental_div_mod_converse(
                value as int,
                step as int,
                -(quotient + 1),
                step - 1 - back,
            );
        }
        step - 1 - (back as i64)
    }
}

/// Floor a time of the wall clock to a granularity. Times before the first that can be
/// written down are left out.
pub fn quantize_datetime(datetime: Datetime, granularity_ns: u64) -> (quantized: Datetime)
    requires
        granularity_ns >= 1,
        granularity_ns >= NANOS_PER_SECOND ==> i64::MIN <= datetime.seconds - (
        datetime.seconds as int) % ((granularity_ns / NANOS_PER_SECOND) as int),
    ensures
        quantized == floored(datetime, granularity_ns),
{
    if granularity_ns >= NANOS_PER_SECOND {
        let step: i64 = (granularity_ns / NANOS_PER_SECOND) as i64;
        let rest: i64 = above_multiple(datetime.seconds, step);
        Datetime { seconds: datetime.seconds - rest, nanoseconds: 0 }
    } else {
        let step: u32 = granularity_ns as u32;
        proof {
            lemma_mod_decreases(datetime.nanoseconds as nat, step as nat);
        }
        Datetime {
            seconds: datetime.seconds,
            nanoseconds: datetime.nanoseconds - datetime.nanoseconds % step,
        }
    }
}

/// Floor a time of the monotonic clock to a granularity.
pub fn quantize_instant(nanoseconds: u64, granularity_ns: u64) -> (quantized: u64)
    requires
        granularity_ns >= 1,
    ensures
        quantized == nanoseconds - nanoseconds % granularity_ns,
{
    proof {
        lemma_mod_decreases(nanoseconds as nat, granularity_ns as nat);
    }
    nanoseconds - nanoseconds % granularity_ns
}

/// The resolution of a coarse clock over another.
pub fn fuzzy_resolution(underlying: u64, granularity_ns: u64) -> (resolution: u64)
    ensures
        resolution == if underlying > granularity_ns {
            underlying
        } else {
            granularity_ns
        },
{
    if underlying > granularity_ns {
        underlying
    } else {
        granularity_ns
    }
}

/// A duration, rounded up to a granularity as far as numbers go.
pub open spec fn rounded_up(duration: u64, granularity: u64) -> nat {
    let steps = (duration + granularity - 1) / (granularity as int);
    if steps * granularity > u64::MAX {
        u64::MAX as nat
    } else {
        (steps * granularity) as nat
    }
}

/// How long a coarse clock sleeps.
pub fn fuzzy_sleep(duration_ns: u64, granularity_ns: u64) -> (slept: u64)
    requires
        granularity_ns >= 1,
    ensures
        slept == rounded_up(duration_ns, granularity_ns),
{
    let duration: u128 = duration_ns as u128;
    let granularity: u128 = granularity_ns as u128;
    let steps: u128 = (duration + granularity - 1) / granularity;
    proof {
        lemma_fundamental_div_mod(duration + granularity - 1, granularity as int);
        lemma_mod_bound(duration + granularity - 1, granularity as int);
        assert(steps * granularity == granularity * steps) by (nonlinear_arith);
    }
    let whole: u128 = steps * granularity;
    if whole > u64::MAX as u128 {
        u64::MAX
    } else {
        whole as u64
    }
}

/// A coarse reading is a multiple of the granularity, not later than the clock, and less
/// than a granularity behind it; readings keep their order.
pub proof fn law_coarse_readings(one: u64, other: u64, granularity: u64)
    requires
        granularity >= 1,
        one <= other,
    ensures
        one - one % granularity <= one < one - one % granularity + granularity,
        (one - one % granularity) % granularity as int == 0,
        one - one % granularity <= other - other % granularity,
{
    let g = granularity as int;
    lemma_mod_bound(one as int, g);
    lemma_mod_bound(other as int, g);
    lemma_fundamental_div_mod(one as int, g);
    lemma_fundamental_div_mod(other as int, g);
    let a = (one as int) / g;
    let b = (other as int) / g;
    lemma_div_is_ordered(one as int, other as int, g);
    assert(g * a <= g * b) by (nonlinear_arith)
        requires
            a <= b,
            g >= 1,
    ;
    lemma_mod_multiples_basic(a, g);
    assert(a * g == g * a) by (nonlinear_arith);
}

/// A coarse sleep is no shorter than the one that was asked for, and less than a granularity
/// longer. It is a multiple of the granularity, unless the multiple is beyond what a number
/// holds: then it is the longest there is.
pub proof fn law_coarse_sleep(duration: u64, granularity: u64)
    requires
        granularity >= 1,
    ensures
        duration <= rounded_up(duration, granularity) < duration + granularity,
        rounded_up(duration, granularity) % (granularity as nat) == 0 || rounded_up(
            duration,
            granularity,
        ) == u64::MAX,
        (duration + granularity - 1) / (granularity as int) * granularity <= u64::MAX ==> rounded_up(
            duration,
            granularity,
        ) % (granularity as nat) == 0,
{
    let g = granularity as int;
    let top = duration + granularity - 1;
    lemma_fundamental_div_mod(top, g);
    lemma_mod_bound(top, g);
    let steps = top / g;
    assert(steps * g == g * steps) by (nonlinear_arith);
    lemma_mod_multiples_basic(steps, g);
}

/// Time adds up: it passes by as much as it is moved, in one go or in several, and stops at
/// the end of what a number holds.
pub proof fn law_time_adds_up(counter: u64, one: u64, other: u64)
    ensures
        counter + one <= u64::MAX ==> later(counter, one) == counter + one,
        counter + one > u64::MAX ==> later(counter, one) == u64::MAX,
        one + other <= u64::MAX ==> later(later(counter, one), other) == later(
            counter,
            (one + other) as u64,
        ),
{
}

/// A coarse wall clock is not ahead and less than a granularity behind: below a second the
/// seconds are right and the nanoseconds a multiple of the granularity; from a second on the
/// seconds are a multiple of its whole seconds and there are no nanoseconds.
pub proof fn law_coarse_wall_clock(datetime: Datetime, granularity: u64)
    requires
        granularity >= 1,
        granularity >= NANOS_PER_SECOND ==> i64::MIN <= datetime.seconds - (datetime.seconds as int)
            % ((granularity / NANOS_PER_SECOND) as int),
    ensures
        ({
            let coarse = floored(datetime, granularity);
            let whole = granularity / 1_000_000_000;
            &&& granularity < 1_000_000_000 ==> {
                &&& coarse.seconds == datetime.seconds
                &&& coarse.nanoseconds % (granularity as u32) == 0
                &&& coarse.nanoseconds <= datetime.nanoseconds < coarse.nanoseconds + granularity
            }
            &&& granularity >= 1_000_000_000 ==> {
                &&& coarse.nanoseconds == 0
                &&& (coarse.seconds as int) % (whole as int) == 0
                &&& coarse.seconds <= datetime.seconds < coarse.seconds + whole
            }
        }),
{
    if granularity >= NANOS_PER_SECOND {
        let whole = (granularity / NANOS_PER_SECOND) as int;
        let seconds = datetime.seconds as int;
        lemma_mod_bound(seconds, whole);
        lemma_fundamental_div_mod(seconds, whole);
        lemma_mod_multiples_basic(seconds / whole, whole);
        assert(seconds - seconds % whole == (seconds / whole) * whole) by (nonlinear_arith)
            requires
                seconds == whole * (seconds / whole) + seconds % whole,
        ;
    } else {
        let step = granularity as int;
        let nanos = datetime.nanoseconds as int;
        lemma_mod_bound(nanos, step);
        lemma_fundamental_div_mod(nanos, step);
        lemma_mod_multiples_basic(nanos / step, step);
        assert(nanos - nanos % step == (nanos / step) * step) by (nonlinear_arith)
            requires
                nanos == step * (nanos / step) + nanos % step,
        ;
    }
}

} // verus!
