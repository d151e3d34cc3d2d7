//! Generators of unbounded point sequences, pulled one point at a time.

use vstd::prelude::*;

verus! {

/// Multiplier of the generator's linear congruential step.
pub const LCG_MULTIPLIER: u64 = 6364136223846793005;

/// Increment of the generator's linear congruential step.
pub const LCG_INCREMENT: u64 = 1442695040888963407;

/// Divisor that keeps the upper 31 bits of a state as the raw output.
pub const OUTPUT_DIVISOR: u64 = 8589934592;

/// A source of points that advances its own resumable state on each pull.
pub trait PointSource<T>: Sized {
    /// The point the next pull yields.
    spec fn peek(&self) -> T;

    /// The source after one pull.
    spec fn advanced(&self) -> Self;

    /// Produces the next point and advances the source by one step.
    fn next_point(&mut self) -> (r: T)
        ensures
            r == old(self).peek(),
            *final(self) == old(self).advanced(),
    ;
}

/// The source `src` after `n` pulls.
pub open spec fn source_after<T, S: PointSource<T>>(src: S, n: nat) -> S
    decreases n,
{
    if n == 0 {
        src
    } else {
        source_after(src, (n - 1) as nat).advanced()
    }
}

/// The first `n` points that `src` yields, in order.
pub open spec fn pulls<T, S: PointSource<T>>(src: S, n: nat) -> Seq<T>
    decreases n,
{
    if n == 0 {
        Seq::empty()
    } else {
        pulls(src, (n - 1) as nat).push(source_after(src, (n - 1) as nat).peek())
    }
}

/// `n` pulls yield `n` points.
pub proof fn lemma_pulls_len<T, S: PointSource<T>>(src: S, n: nat)
    ensures
        pulls(src, n).len() == n,
    decreases n,
{
    if n > 0 {
        lemma_pulls_len(src, (n - 1) as nat);
    }
}

/// The generator state that follows `state`.
#[verifier::opaque]
pub open spec fn next_state(state: u64) -> u64 {
    state.wrapping_mul(LCG_MULTIPLIER).wrapping_add(LCG_INCREMENT)
}

/// The generator state after `n` steps from `state`.
pub open spec fn state_after(state: u64, n: nat) -> u64
    decreases n,
{
    if n == 0 {
        state
    } else {
        next_state(state_after(state, (n - 1) as nat))
    }
}

/// The value emitted for a freshly reached `state`, folded into `[low, high]`
/// (just `low` for an empty range).
#[verifier::opaque]
pub open spec fn bounded_value(low: u64, high: u64, state: u64) -> u64 {
    let raw = (state / OUTPUT_DIVISOR) as int;
    if low <= high {
        (low + raw % (high - low + 1)) as u64
    } else {
        low
    }
}

/// The first `n` values that a generator with range `[low, high]` and state
/// `state` emits.
pub open spec fn random_values(low: u64, high: u64, state: u64, n: nat) -> Seq<u64>
    decreases n,
{
    if n == 0 {
        Seq::empty()
    } else {
        random_values(low, high, state, (n - 1) as nat).push(
            bounded_value(low, high, state_after(state, n)),
        )
    }
}

/// A reproducible pseudo-random walk over the inclusive range `[low, high]`.
pub struct RandomSignal {
    pub low: u64,
    pub high: u64,
    pub state: u64,
}

impl RandomSignal {
    /// The generator that `new(low, high, seed)` builds.
    pub open spec fn new_spec(low: u64, high: u64, seed: u64) -> RandomSignal {
        RandomSignal { low, high, state: seed }
    }

    /// A generator over `[low, high]` whose sequence is fixed by `seed`.
    pub fn new(low: u64, high: u64, seed: u64) -> (r: RandomSignal)
        requires
            low <= high,
        ensures
            r == RandomSignal::new_spec(low, high, seed),
    {
        RandomSignal { low, high, state: seed }
    }

    /// Advances the state by one step and returns the value it yields.
    pub fn draw(&mut self) -> (r: u64)
        ensures
            final(self).low == old(self).low,
            final(self).high == old(self).high,
            final(self).state == next_state(old(self).state),
            r == bounded_value(old(self).low, old(self).high, final(self).state),
            old(self).low <= old(self).high ==> old(self).low <= r <= old(self).high,
    {
        proof {
            reveal(next_state);
            reveal(bounded_value);
        }
        self.state = self.state.wrapping_mul(LCG_MULTIPLIER).wrapping_add(LCG_INCREMENT);
        let raw = self.state / OUTPUT_DIVISOR;
        if self.low <= self.high {
            let span = self.high - self.low;
            let offset = if raw <= span {
                proof {
                    vstd::arithmetic::div_mod::lemma_small_mod(raw as nat, (span + 1) as nat);
                }
                raw
            } else {
                raw % (span + 1)
            };
            self.low + offset
        } else {
            self.low
        }
    }

    /// Draws the next `n` values, in order.
    pub fn take_points(&mut self, n: usize) -> (r: Vec<u64>)
        ensures
            final(self).low == old(self).low,
            final(self).high == old(self).high,
            final(self).state == state_after(old(self).state, n as nat),
            r@ == random_values(old(self).low, old(self).high, old(self).state, n as nat),
    {
        let mut points: Vec<u64> = Vec::new();
        let mut i: usize = 0;
        while i < n
            invariant
                i <= n,
                self.low == old(self).low,
                self.high == old(self).high,
                self.state == state_after(old(self).state, i as nat),
                points@ == random_values(old(self).low, old(self).high, old(self).state, i as nat),
            decreases n - i,
        {
            let v = self.draw();
            points.push(v);
            i = i + 1;
        }
        points
    }
}

impl PointSource<u64> for RandomSignal {
    open spec fn peek(&self) -> u64 {
        bounded_value(self.low, self.high, next_state(self.state))
    }

    open spec fn advanced(&self) -> RandomSignal {
        RandomSignal { low: self.low, high: self.high, state: next_state(self.state) }
    }

    fn next_point(&mut self) -> (r: u64) {
        self.draw()
    }
}

/// What a generator yields is fixed by its range and seed: its first `n`
/// pulls are `random_values(low, high, seed, n)`, after which its state is
/// `state_after(seed, n)`.
pub proof fn lemma_pulls_fixed_by_seed(g: RandomSignal, n: nat)
    ensures
        pulls(g, n) == random_values(g.low, g.high, g.state, n),
        source_after(g, n) == (RandomSignal { low: g.low, high: g.high, state: state_after(g.state, n) }),
    decreases n,
{
    if n > 0 {
        lemma_pulls_fixed_by_seed(g, (n - 1) as nat);
    }
}

/// Every value a generator emits over a non-empty range lies inside it.
pub proof fn lemma_random_values_in_range(low: u64, high: u64, state: u64, n: nat)
    requires
        low <= high,
    ensures
        random_values(low, high, state, n).len() == n,
        forall|i: int|
            0 <= i < n ==> low <= #[trigger] random_values(low, high, state, n)[i] <= high,
    decreases n,
{
    reveal(bounded_value);
    if n > 0 {
        lemma_random_values_in_range(low, high, state, (n - 1) as nat);
        let raw = (state_after(state, n) / OUTPUT_DIVISOR) as int;
        assert(raw % (high - low + 1) < high - low + 1);
    }
}

} // verus!
