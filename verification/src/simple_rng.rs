//! A small linear congruential pseudo-random generator.
//!
//! The generator state is held in an explicit [`SeedState`] value; callers
//! that want a process-wide generator keep one behind a lock of their own.
//! Suitable for jitter and mock identifiers, not for security purposes.

use vstd::prelude::*;

verus! {

/// Multiplier of the generator.
pub const LCG_MULTIPLIER: u64 = 1_103_515_245;

/// Increment of the generator.
pub const LCG_INCREMENT: u64 = 12_345;

/// One step of the generator: `x * A + C` modulo 2^64.
pub open spec fn lcg_step(x: u64) -> u64 {
    ((x as int * LCG_MULTIPLIER as int + LCG_INCREMENT as int) % 0x1_0000_0000_0000_0000) as u64
}

/// The value produced by the `n`-th call after seeding with `seed`
/// (the first call is `n == 1`).
pub open spec fn lcg_iterate(seed: u64, n: nat) -> u64
    decreases n,
{
    if n == 0 {
        seed
    } else {
        lcg_step(lcg_iterate(seed, (n - 1) as nat))
    }
}

/// State of the generator: the current seed, if any, and the fallback
/// counter used when the system clock gives no usable entropy.
pub struct SeedState {
    seed: Option<u64>,
    fallback_counter: u64,
}

impl SeedState {
    /// The current seed, or `None` before initialization.
    pub closed spec fn seed(&self) -> Option<u64> {
        self.seed
    }

    /// The fallback counter.
    pub closed spec fn fallback(&self) -> u64 {
        self.fallback_counter
    }

    /// A fresh, uninitialized generator state.
    pub fn new() -> (s: Self)
        ensures
            s.seed() is None,
            s.fallback() == 1,
    {
        SeedState { seed: None, fallback_counter: 1 }
    }

    /// Whether a seed has been set.
    pub fn is_initialized(&self) -> (b: bool)
        ensures
            b == self.seed() is Some,
    {
        self.seed.is_some()
    }
}

/// Computes `x * A + C` with wrap-around, as the generator does.
pub fn lcg_next(x: u64) -> (r: u64)
    ensures
        r == lcg_step(x),
{
    let m = x.wrapping_mul(LCG_MULTIPLIER);
    let r = m.wrapping_add(LCG_INCREMENT);
    proof {
        let big: int = 0x1_0000_0000_0000_0000;
        let p: int = x as int * LCG_MULTIPLIER as int;
        assert(p >= 0) by (nonlinear_arith)
            requires p == x as int * 1_103_515_245int, x >= 0;
        assert(m as int == p % big);
        vstd::arithmetic::div_mod::lemma_add_mod_noop(p, LCG_INCREMENT as int, big);
        vstd::arithmetic::div_mod::lemma_small_mod(LCG_INCREMENT as nat, big as nat);
        if m as int + LCG_INCREMENT as int >= big {
            vstd::arithmetic::div_mod::lemma_fundamental_div_mod_converse(
                m as int + LCG_INCREMENT as int, big, 1, m as int + LCG_INCREMENT as int - big);
        } else {
            vstd::arithmetic::div_mod::lemma_small_mod((m as int + LCG_INCREMENT as int) as nat, big as nat);
        }
    }
    r
}

/// Seeds the generator with `seed` unless it already has a seed.
///
/// Returns `true` when the seed was accepted; a generator that is already
/// seeded (explicitly or lazily) keeps its seed and `false` is returned.
pub fn init_seed_with_value(state: &mut SeedState, seed: u64) -> (accepted: bool)
    ensures
        accepted == old(state).seed() is None,
        accepted ==> final(state).seed() == Some(seed),
        !accepted ==> final(state).seed() == old(state).seed(),
        final(state).fallback() == old(state).fallback(),
{
    if state.seed.is_some() {
        false
    } else {
        state.seed = Some(seed);
        true
    }
}

/// Nanoseconds since the Unix epoch as the system clock reports them, or
/// `None` when the clock reads a time before the epoch; calls
/// `SystemTime::now` and measures the result from `UNIX_EPOCH`. The
/// reading depends on the moment of the call, so nothing is stated of it.
#[verifier::external_body]
fn clock_nanos() -> (n: Option<u128>) {
    match std::time::SystemTime::now().duration_since(std::time::UNIX_EPOCH) {
        Ok(d) => Some(d.as_nanos()),
        Err(_) => None,
    }
}

/// The seed taken from a clock reading: the nanoseconds when there is a
/// reading that fits in 64 bits, `fallback` otherwise.
pub open spec fn clock_seed(nanos: Option<u128>, fallback: u64) -> u64 {
    match nanos {
        Some(n) => if n <= u64::MAX as u128 { n as u64 } else { fallback },
        None => fallback,
    }
}

/// Turns a clock reading into a seed: the nanoseconds when they fit in
/// 64 bits, `fallback` when there is no reading or it is out of range.
pub fn seed_from_clock(nanos: Option<u128>, fallback: u64) -> (s: u64)
    ensures
        s == clock_seed(nanos, fallback),
{
    match nanos {
        Some(n) => if n <= u64::MAX as u128 { n as u64 } else { fallback },
        None => fallback,
    }
}

/// Draws the next fallback value, advancing the counter with wrap-around.
fn take_fallback(state: &mut SeedState) -> (f: u64)
    ensures
        f == old(state).fallback(),
        final(state).fallback() == old(state).fallback().wrapping_add(1),
        final(state).seed() == old(state).seed(),
{
    let f = state.fallback_counter;
    state.fallback_counter = f.wrapping_add(1);
    f
}

/// Seeds the generator from the system clock unless it already has a seed.
///
/// The fallback counter is advanced in either case.
pub fn init_seed(state: &mut SeedState)
    ensures
        final(state).seed() is Some,
        old(state).seed() is Some ==> final(state).seed() == old(state).seed(),
        final(state).fallback() == old(state).fallback().wrapping_add(1),
{
    let fallback = take_fallback(state);
    let seed = seed_from_clock(clock_nanos(), fallback);
    if state.seed.is_none() {
        state.seed = Some(seed);
    }
}

/// Makes sure the generator has a seed, seeding it from the clock if not.
///
/// An already seeded generator is left exactly as it was.
fn ensure_seed_initialized(state: &mut SeedState)
    ensures
        final(state).seed() is Some,
        old(state).seed() is Some ==> *final(state) == *old(state),
{
    if state.seed.is_some() {
        return;
    }
    let fallback = take_fallback(state);
    let seed = seed_from_clock(clock_nanos(), fallback);
    state.seed = Some(seed);
}

/// Advances the generator and returns the new value.
///
/// For a seeded generator the result is one generator step from the
/// current seed, and it becomes the new seed; an unseeded generator is
/// first seeded from the clock.
pub fn next_u64(state: &mut SeedState) -> (r: u64)
    ensures
        final(state).seed() == Some(r),
        old(state).seed() matches Some(s) ==> r == lcg_step(s),
        old(state).seed() is Some ==> final(state).fallback() == old(state).fallback(),
{
    ensure_seed_initialized(state);
    let prev = match state.seed {
        Some(s) => s,
        None => 0,
    };
    let next = lcg_next(prev);
    state.seed = Some(next);
    next
}

/// Advances the generator and returns the low 32 bits of the new value.
pub fn next_u32(state: &mut SeedState) -> (r: u32)
    ensures
        final(state).seed() is Some,
        r as int == final(state).seed()->0 as int % 0x1_0000_0000,
        old(state).seed() matches Some(s) ==> r as int == lcg_step(s) as int % 0x1_0000_0000,
        old(state).seed() matches Some(s) ==> final(state).seed() == Some(lcg_step(s)),
        old(state).seed() is Some ==> final(state).fallback() == old(state).fallback(),
{
    let v = next_u64(state);
    let r = v as u32;
    assert(r as int == v as int % 0x1_0000_0000) by (bit_vector)
        requires r == v as u32;
    r
}

/// Returns the generator to its unseeded initial state.
pub fn reset_initialized_for_tests(state: &mut SeedState)
    ensures
        final(state).seed() is None,
        final(state).fallback() == 1,
{
    state.seed = None;
    state.fallback_counter = 1;
}

/// One generator step never maps a value to itself, so two consecutive
/// draws from the generator always differ.
pub proof fn lemma_consecutive_draws_differ(x: u64)
    ensures
        lcg_step(x) != x,
        lcg_step(lcg_step(x)) != lcg_step(x),
{
    lemma_step_moves(x);
    lemma_step_moves(lcg_step(x));
}

/// The draws after seeding are determined by the seed alone: when each
/// draw is one step from the previous one, starting from `seed`, the
/// `i`-th draw (counting from 0) is the generator iterated `i + 1` times.
/// Seeding twice with the same value therefore reproduces the same sequence.
pub proof fn lemma_draws_follow_seed(seed: u64, draws: Seq<u64>)
    requires
        draws.len() > 0 ==> draws[0] == lcg_step(seed),
        forall|i: int| 0 < i < draws.len() ==> #[trigger] draws[i] == lcg_step(draws[i - 1]),
    ensures
        forall|i: int| 0 <= i < draws.len() ==> #[trigger] draws[i] == lcg_iterate(seed, (i + 1) as nat),
    decreases draws.len(),
{
    if draws.len() > 0 {
        let prefix = draws.drop_last();
        lemma_draws_follow_seed(seed, prefix);
        assert forall|i: int| 0 <= i < draws.len() implies #[trigger] draws[i] == lcg_iterate(seed, (i + 1) as nat) by {
            if i < prefix.len() {
                assert(prefix[i] == draws[i]);
            } else if i > 0 {
                assert(prefix[i - 1] == draws[i - 1]);
                assert(draws[i - 1] == lcg_iterate(seed, i as nat));
                assert(lcg_iterate(seed, (i + 1) as nat) == lcg_step(lcg_iterate(seed, i as nat)));
            } else {
                assert(lcg_iterate(seed, 1) == lcg_step(lcg_iterate(seed, 0)));
            }
        }
    }
}

proof fn lemma_step_moves(x: u64)
    ensures
        lcg_step(x) != x,
{
    let big: int = 0x1_0000_0000_0000_0000;
    let p: int = x as int * LCG_MULTIPLIER as int + LCG_INCREMENT as int;
    let q: int = p / big;
    vstd::arithmetic::div_mod::lemma_fundamental_div_mod(p, big);
    if lcg_step(x) == x {
        assert(p == big * q + x);
        assert(x as int * 1_103_515_244int + 12_345int == big * q);
        assert(false) by (nonlinear_arith)
            requires
                x as int * 1_103_515_244int + 12_345int == 0x1_0000_0000_0000_0000int * q,
        {
            assert((x as int * 1_103_515_244int) % 2 == 0) by (nonlinear_arith)
                requires x >= 0;
        }
    }
}

} // verus!
