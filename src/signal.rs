//! Fixed-length windows over unbounded point sources.

use vstd::prelude::*;
use crate::ConfigError;
use crate::source::{PointSource, lemma_pulls_len, pulls, source_after};

verus! {

/// How far both bounds of a signal group's x-axis window move per tick.
pub const WINDOW_STEP: u64 = 1;

/// A window of the most recent points of a source. Each tick evicts the
/// oldest `tick_rate` points and appends as many fresh ones, so the window
/// keeps the length it was built with.
pub struct Signal<S, T> {
    source: S,
    points: Vec<T>,
    tick_rate: usize,
}

impl<S: PointSource<T>, T> Signal<S, T> {
    pub closed spec fn points_spec(&self) -> Seq<T> {
        self.points@
    }

    pub closed spec fn tick_rate_spec(&self) -> nat {
        self.tick_rate as nat
    }

    pub closed spec fn source_spec(&self) -> S {
        self.source
    }

    /// A tick never evicts more points than the window holds.
    pub open spec fn wf(&self) -> bool {
        self.tick_rate_spec() <= self.points_spec().len()
    }

    /// `next` is what one tick makes of `self`: the same tick rate, the
    /// survivors of the eviction moved to the front in their order, behind
    /// them the source's next `tick_rate` points, and the source advanced by
    /// exactly that many pulls.
    pub open spec fn ticks_to(self, next: Self) -> bool {
        let len = self.points_spec().len();
        let k = self.tick_rate_spec();
        &&& next.tick_rate_spec() == k
        &&& next.points_spec() == self.points_spec().subrange(k as int, len as int) + pulls(
            self.source_spec(),
            k,
        )
        &&& next.source_spec() == source_after(self.source_spec(), k)
    }

    /// A window of the first `capacity` points of `source`, advancing by
    /// `tick_rate` points per tick; a tick rate above the capacity is refused.
    pub fn new(source: S, capacity: usize, tick_rate: usize) -> (r: Result<Signal<S, T>, ConfigError>)
        ensures
            tick_rate > capacity <==> r is Err,
            r is Err ==> r->Err_0 == ConfigError::TickRateExceedsCapacity,
            r is Ok ==> r->Ok_0.wf() && r->Ok_0.points_spec() == pulls(source, capacity as nat)
                && r->Ok_0.source_spec() == source_after(source, capacity as nat)
                && r->Ok_0.tick_rate_spec() == tick_rate,
    {
        if tick_rate > capacity {
            return Err(ConfigError::TickRateExceedsCapacity);
        }
        let ghost start = source;
        let mut source = source;
        let mut points: Vec<T> = Vec::new();
        let mut i: usize = 0;
        while i < capacity
            invariant
                i <= capacity,
                points@ == pulls(start, i as nat),
                source == source_after(start, i as nat),
            decreases capacity - i,
        {
            points.push(source.next_point());
            i = i + 1;
        }
        proof {
            lemma_pulls_len(start, capacity as nat);
        }
        Ok(Signal { source, points, tick_rate })
    }

    /// A window over `points` already drawn from `source`, advancing by
    /// `tick_rate` points per tick; a tick rate above their number is refused.
    pub fn with_points(source: S, points: Vec<T>, tick_rate: usize) -> (r: Result<
        Signal<S, T>,
        ConfigError,
    >)
        ensures
            tick_rate > points@.len() <==> r is Err,
            r is Err ==> r->Err_0 == ConfigError::TickRateExceedsCapacity,
            r is Ok ==> r->Ok_0.wf() && r->Ok_0.points_spec() == points@
                && r->Ok_0.source_spec() == source && r->Ok_0.tick_rate_spec() == tick_rate,
    {
        if tick_rate > points.len() {
            Err(ConfigError::TickRateExceedsCapacity)
        } else {
            Ok(Signal { source, points, tick_rate })
        }
    }

    pub fn points(&self) -> (r: &Vec<T>)
        ensures
            r@ == self.points_spec(),
    {
        &self.points
    }

    pub fn tick_rate(&self) -> (r: usize)
        ensures
            r == self.tick_rate_spec(),
    {
        self.tick_rate
    }

    /// Evicts the oldest `tick_rate` points and appends as many fresh ones.
    pub fn on_tick(&mut self)
        requires
            old(self).wf(),
        ensures
            final(self).wf(),
            old(self).ticks_to(*final(self)),
    {
        let k = self.tick_rate;
        let ghost start = self.points@;
        let ghost src = self.source;
        let ghost len = start.len();
        let mut i: usize = 0;
        while i < k
            invariant
                k == self.tick_rate,
                k <= len,
                start.len() == len,
                i <= k,
                self.source == src,
                self.points@ == start.subrange(i as int, len as int),
            decreases k - i,
        {
            self.points.remove(0);
            i = i + 1;
        }
        let mut j: usize = 0;
        while j < k
            invariant
                k == self.tick_rate,
                k <= len,
                start.len() == len,
                j <= k,
                self.points@ == start.subrange(k as int, len as int) + pulls(src, j as nat),
                self.source == source_after(src, j as nat),
            decreases k - j,
        {
            let p = self.source.next_point();
            self.points.push(p);
            j = j + 1;
            assert(self.points@ =~= start.subrange(k as int, len as int) + pulls(src, j as nat));
        }
        proof {
            lemma_pulls_len(src, k as nat);
        }
    }
}

/// Along any run of ticks, a window keeps the length it started with.
pub proof fn lemma_ticks_keep_length<S: PointSource<T>, T>(run: Seq<Signal<S, T>>)
    requires
        forall|i: int| 0 <= i < run.len() ==> #[trigger] run[i].wf(),
        forall|i: int| 0 <= i < run.len() - 1 ==> #[trigger] run[i].ticks_to(run[i + 1]),
    ensures
        forall|i: int|
            0 <= i < run.len() ==> #[trigger] run[i].points_spec().len() == run[0].points_spec().len(),
    decreases run.len(),
{
    if run.len() > 1 {
        let prefix = run.drop_last();
        assert forall|i: int| 0 <= i < prefix.len() implies #[trigger] prefix[i].wf() by {
            assert(run[i].wf());
        }
        assert forall|i: int| 0 <= i < prefix.len() - 1 implies #[trigger] prefix[i].ticks_to(
            prefix[i + 1],
        ) by {
            assert(run[i].ticks_to(run[i + 1]));
        }
        lemma_ticks_keep_length(prefix);
        let last = run.len() - 2;
        assert(run[last].ticks_to(run[last + 1]));
        assert(run[last].wf());
        lemma_pulls_len(run[last].source_spec(), run[last].tick_rate_spec());
        assert forall|i: int| 0 <= i < run.len() implies #[trigger] run[i].points_spec().len()
            == run[0].points_spec().len() by {
            assert(prefix[0] == run[0]);
            assert(prefix[last] == run[last]);
            assert(prefix[last].points_spec().len() == prefix[0].points_spec().len());
            if i < run.len() - 1 {
                assert(prefix[i] == run[i]);
                assert(prefix[i].points_spec().len() == prefix[0].points_spec().len());
            }
        }
    }
}

/// A tick is fixed by a window's points, tick rate and source: two windows
/// that agree on them still agree after one tick each.
pub proof fn lemma_tick_deterministic<S: PointSource<T>, T>(
    a: Signal<S, T>,
    b: Signal<S, T>,
    a_next: Signal<S, T>,
    b_next: Signal<S, T>,
)
    requires
        a.points_spec() == b.points_spec(),
        a.tick_rate_spec() == b.tick_rate_spec(),
        a.source_spec() == b.source_spec(),
        a.ticks_to(a_next),
        b.ticks_to(b_next),
    ensures
        a_next.points_spec() == b_next.points_spec(),
        a_next.tick_rate_spec() == b_next.tick_rate_spec(),
        a_next.source_spec() == b_next.source_spec(),
{
}

/// The window bounds after one tick of a group.
pub open spec fn advance_window(window: Seq<u64>) -> Seq<u64> {
    seq![window[0].wrapping_add(WINDOW_STEP), window[1].wrapping_add(WINDOW_STEP)]
}

/// The width of a window, counted modulo the range of `u64`.
pub open spec fn window_width(window: Seq<u64>) -> u64 {
    window[1].wrapping_sub(window[0])
}

/// Two windows of one source type advanced together, with the bounds
/// `[x_min, x_max]` of the x-axis they are drawn against.
pub struct Signals<S, T> {
    sin1: Signal<S, T>,
    sin2: Signal<S, T>,
    window: [u64; 2],
}

impl<S: PointSource<T>, T> Signals<S, T> {
    pub closed spec fn sin1_spec(&self) -> Signal<S, T> {
        self.sin1
    }

    pub closed spec fn sin2_spec(&self) -> Signal<S, T> {
        self.sin2
    }

    pub closed spec fn window_spec(&self) -> Seq<u64> {
        self.window@
    }

    pub open spec fn wf(&self) -> bool {
        &&& self.sin1_spec().wf()
        &&& self.sin2_spec().wf()
        &&& self.window_spec().len() == 2
    }

    /// `next` is what one tick of the group makes of `self`: both windows
    /// ticked and both bounds moved by `WINDOW_STEP`.
    pub open spec fn ticks_to(self, next: Self) -> bool {
        &&& self.sin1_spec().ticks_to(next.sin1_spec())
        &&& self.sin2_spec().ticks_to(next.sin2_spec())
        &&& next.window_spec() == advance_window(self.window_spec())
    }

    pub fn new(sin1: Signal<S, T>, sin2: Signal<S, T>, window: [u64; 2]) -> (r: Signals<S, T>)
        requires
            sin1.wf(),
            sin2.wf(),
        ensures
            r.wf(),
            r.sin1_spec() == sin1,
            r.sin2_spec() == sin2,
            r.window_spec() == window@,
    {
        Signals { sin1, sin2, window }
    }

    pub fn sin1(&self) -> (r: &Signal<S, T>)
        ensures
            *r == self.sin1_spec(),
    {
        &self.sin1
    }

    pub fn sin2(&self) -> (r: &Signal<S, T>)
        ensures
            *r == self.sin2_spec(),
    {
        &self.sin2
    }

    pub fn window(&self) -> (r: [u64; 2])
        ensures
            r@ == self.window_spec(),
    {
        self.window
    }

    /// Ticks both windows, then moves both window bounds by `WINDOW_STEP`.
    pub fn on_tick(&mut self)
        requires
            old(self).wf(),
        ensures
            final(self).wf(),
            old(self).ticks_to(*final(self)),
    {
        self.sin1.on_tick();
        self.sin2.on_tick();
        let lo = self.window[0].wrapping_add(WINDOW_STEP);
        let hi = self.window[1].wrapping_add(WINDOW_STEP);
        self.window = [lo, hi];
        assert(self.window@ =~= advance_window(old(self).window@));
    }
}

/// Advancing a window keeps its width.
pub proof fn lemma_window_width_kept(window: Seq<u64>)
    requires
        window.len() == 2,
    ensures
        window_width(advance_window(window)) == window_width(window),
{
}

} // verus!
