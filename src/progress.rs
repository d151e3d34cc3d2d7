//! A progress counter that rises in fixed steps and wraps to zero.

use vstd::prelude::*;
use vstd::arithmetic::div_mod::*;

verus! {

/// One step of progress: `p` rises by `step` and drops to zero once it would
/// reach `scale`.
pub open spec fn progress_step(p: nat, step: nat, scale: nat) -> nat {
    if p + step >= scale {
        0
    } else {
        p + step
    }
}

/// Progress after `n` steps from `p`.
pub open spec fn progress_after(p: nat, step: nat, scale: nat, n: nat) -> nat
    decreases n,
{
    if n == 0 {
        p
    } else {
        progress_step(progress_after(p, step, scale, (n - 1) as nat), step, scale)
    }
}

/// The number of steps of size `step` that cover `scale`, rounded up.
pub open spec fn steps_to_cover(step: nat, scale: nat) -> nat {
    ((scale + step - 1) as nat) / step
}

/// Advances progress `p` by `step`, wrapping to zero at `scale`.
pub fn advance_progress(p: u64, step: u64, scale: u64) -> (r: u64)
    ensures
        r == progress_step(p as nat, step as nat, scale as nat),
{
    if p >= scale || step >= scale - p {
        0
    } else {
        p + step
    }
}

proof fn lemma_progress_below(p: nat, step: nat, scale: nat, n: nat)
    requires
        p < scale,
    ensures
        progress_after(p, step, scale, n) < scale,
    decreases n,
{
    if n > 0 {
        lemma_progress_below(p, step, scale, (n - 1) as nat);
    }
}

proof fn lemma_progress_linear_until_wrap(p: nat, step: nat, scale: nat, n: nat)
    requires
        step > 0,
        forall|j: nat| 1 <= j <= n ==> #[trigger] progress_after(p, step, scale, j) != 0,
    ensures
        progress_after(p, step, scale, n) == p + n * step,
    decreases n,
{
    if n > 0 {
        lemma_progress_linear_until_wrap(p, step, scale, (n - 1) as nat);
        assert(progress_after(p, step, scale, n) != 0);
        let prev = progress_after(p, step, scale, (n - 1) as nat);
        assert(progress_after(p, step, scale, n) == prev + step);
        assert(p + ((n - 1) as nat) * step + step == p + n * step) by (nonlinear_arith)
            requires
                n > 0,
        ;
    } else {
        assert(n * step == 0) by (nonlinear_arith)
            requires
                n == 0,
        ;
    }
}

/// Starting anywhere in `[0, scale)`, progress never leaves that range, and
/// within `ceil(scale / step)` steps it has wrapped back to zero.
pub proof fn lemma_progress_sawtooth(p: nat, step: nat, scale: nat)
    requires
        step > 0,
        p < scale,
    ensures
        forall|n: nat| #[trigger] progress_after(p, step, scale, n) < scale,
        exists|n: nat|
            1 <= n <= steps_to_cover(step, scale) && #[trigger] progress_after(p, step, scale, n)
                == 0,
{
    assert forall|n: nat| #[trigger] progress_after(p, step, scale, n) < scale by {
        lemma_progress_below(p, step, scale, n);
    }
    let bound = steps_to_cover(step, scale);
    lemma_fundamental_div_mod((scale + step - 1) as int, step as int);
    lemma_mod_pos_bound((scale + step - 1) as int, step as int);
    assert(bound * step >= scale) by (nonlinear_arith)
        requires
            scale + step - 1 == step * bound + (scale + step - 1) % (step as int),
            (scale + step - 1) % (step as int) < step,
    ;
    if forall|j: nat| 1 <= j <= bound ==> #[trigger] progress_after(p, step, scale, j) != 0 {
        lemma_progress_linear_until_wrap(p, step, scale, bound);
        assert(false);
    }
}

} // verus!
