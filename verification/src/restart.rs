//! The restart policies: `restart.always`, `restart.never` and `restart.backoff`.
use vstd::arithmetic::power2::{lemma2_to64, lemma_pow2_strictly_increases, pow2};
use vstd::prelude::*;

verus! {

/// What a policy orders after a run.
#[derive(Clone, Copy, PartialEq, Eq, Structural, Debug)]
pub enum RestartAction {
    Restart,
    RestartAfterMs(u64),
    GiveUp,
}

/// What a policy knows of the runs so far.
#[derive(Clone, Copy, PartialEq, Eq, Structural, Debug)]
pub struct FailureHistory {
    pub total_restarts: u32,
}

/// The longest delay: one hour.
pub const MAX_DELAY_MS: u64 = 3_600_000;

/// `restart.always`: restart at once, whatever happened.
pub fn always(_history: FailureHistory) -> (action: RestartAction)
    ensures
        action == RestartAction::Restart,
{
    RestartAction::Restart
}

/// `restart.never`: one run, whatever happened.
pub fn never(_history: FailureHistory) -> (action: RestartAction)
    ensures
        action == RestartAction::GiveUp,
{
    RestartAction::GiveUp
}

/// What `restart.backoff` is configured with.
#[derive(Clone, Copy, PartialEq, Eq, Structural, Debug)]
pub struct Backoff {
    pub max_restarts: u32,
    pub base_delay_ms: u64,
}

/// The delay before the restart that follows so many restarts: the base, doubled each
/// time, and one hour at most.
pub open spec fn delay_after(base: u64, restarts: u32) -> nat {
    let doubled = base * pow2(restarts as nat);
    if doubled < MAX_DELAY_MS {
        doubled as nat
    } else {
        MAX_DELAY_MS as nat
    }
}

/// What `restart.backoff` orders.
pub open spec fn decided(config: Option<Backoff>, history: FailureHistory) -> RestartAction {
    match config {
        None => RestartAction::GiveUp,
        Some(config) => if history.total_restarts >= config.max_restarts {
            RestartAction::GiveUp
        } else {
            RestartAction::RestartAfterMs(
                delay_after(config.base_delay_ms, history.total_restarts) as u64,
            )
        },
    }
}

/// Double a delay so often, up to the longest one.
fn doubled(base: u64, times: u32) -> (delay: u64)
    ensures
        delay == delay_after(base, times),
{
    let mut delay: u64 = if base < MAX_DELAY_MS {
        base
    } else {
        MAX_DELAY_MS
    };
    let mut done: u32 = 0;
    proof {
        lemma2_to64();
    }
    assert(base * 1 == base);
    while done < times && delay < MAX_DELAY_MS && delay > 0
        invariant
            done <= times,
            delay == delay_after(base, done),
        decreases times - done,
    {
        proof {
            lemma_doubling(base, done);
        }
        delay = if delay < MAX_DELAY_MS - delay {
            delay + delay
        } else {
            MAX_DELAY_MS
        };
        done += 1;
    }
    proof {
        if done < times {
            lemma_pow2_strictly_increases(done as nat, times as nat);
            lemma_settled(base, done, times);
        }
    }
    delay
}

proof fn lemma_doubling(base: u64, done: u32)
    requires
        done < u32::MAX,
    ensures
        base * pow2((done + 1) as nat) == 2 * (base * pow2(done as nat)),
{
    vstd::arithmetic::power2::lemma_pow2_unfold((done + 1) as nat);
    assert(base * (2 * pow2(done as nat)) == 2 * (base * pow2(done as nat))) by (nonlinear_arith);
}

proof fn lemma_settled(base: u64, done: u32, times: u32)
    requires
        pow2(done as nat) < pow2(times as nat),
        delay_after(base, done) == 0 || delay_after(base, done) == MAX_DELAY_MS,
    ensures
        delay_after(base, times) == delay_after(base, done),
{
    vstd::arithmetic::power2::lemma_pow2_pos(done as nat);
    let small = pow2(done as nat);
    let large = pow2(times as nat);
    assert(base * small <= base * large) by (nonlinear_arith)
        requires
            small < large,
    ;
    if base > 0 {
        assert(base * small > 0) by (nonlinear_arith)
            requires
                base > 0,
                small > 0,
        ;
    } else {
        assert(base * large == 0) by (nonlinear_arith)
            requires
                base == 0,
        ;
        assert(base * small == 0) by (nonlinear_arith)
            requires
                base == 0,
        ;
    }
}

/// `restart.backoff`: what it orders after a run.
pub fn backoff(config: &Option<Backoff>, history: FailureHistory) -> (action: RestartAction)
    ensures
        action == decided(*config, history),
{
    let config = match config {
        Some(config) => *config,
        None => {
            return RestartAction::GiveUp;
        },
    };
    if history.total_restarts >= config.max_restarts {
        return RestartAction::GiveUp;
    }
    RestartAction::RestartAfterMs(doubled(config.base_delay_ms, history.total_restarts))
}

/// Delays never shrink from one restart to the next, and none is longer than an hour.
pub proof fn law_delays_grow_to_the_cap(base: u64, restarts: u32, more: u32)
    requires
        restarts <= more,
    ensures
        delay_after(base, restarts) <= delay_after(base, more) <= MAX_DELAY_MS,
{
    if restarts < more {
        lemma_pow2_strictly_increases(restarts as nat, more as nat);
        let small = pow2(restarts as nat);
        let large = pow2(more as nat);
        assert(base * small <= base * large) by (nonlinear_arith)
            requires
                small < large,
        ;
    }
}

/// The policy stops: an unconfigured one at once, a configured one after its number of
/// restarts and not before.
pub proof fn law_gives_up_in_time(config: Option<Backoff>, history: FailureHistory)
    ensures
        config is None ==> decided(config, history) == RestartAction::GiveUp,
        config matches Some(config) ==> (decided(Some(config), history) == RestartAction::GiveUp
            <==> history.total_restarts >= config.max_restarts),
{
}

/// The first restart waits for the base, and each later one twice as long as the one before,
/// up to an hour.
pub proof fn law_delays_double(config: Backoff, restarts: u32)
    requires
        restarts < u32::MAX,
    ensures
        ({
            let capped = |delay: int|
                if delay < 3_600_000 {
                    delay
                } else {
                    3_600_000
                };
            &&& delay_after(config.base_delay_ms, 0) == capped(config.base_delay_ms as int)
            &&& delay_after(config.base_delay_ms, (restarts + 1) as u32) == capped(
                2 * delay_after(config.base_delay_ms, restarts) as int,
            )
            &&& restarts < config.max_restarts ==> decided(
                Some(config),
                FailureHistory { total_restarts: restarts },
            ) == RestartAction::RestartAfterMs(
                delay_after(config.base_delay_ms, restarts) as u64,
            )
        }),
{
    let base = config.base_delay_ms;
    let power = pow2(restarts as nat) as int;
    vstd::arithmetic::power2::lemma_pow2_unfold((restarts + 1) as nat);
    vstd::arithmetic::power2::lemma2_to64();
    assert(base * (2 * power) == 2 * (base * power)) by (nonlinear_arith);
    assert(base * pow2(0) == base) by (nonlinear_arith)
        requires
            pow2(0) == 1,
    ;
}

} // verus!
