//! The dashboard state that a renderer polls and an event loop drives.

use vstd::prelude::*;
use crate::ConfigError;
use crate::progress::{advance_progress, progress_after, progress_step};
use crate::rotating::{RotatingBuffer, rotate_right, rotated};
use crate::selection::{
    StatefulList,
    TabsState,
    next_selection,
    previous_selection,
    next_tab,
    previous_tab,
};
use crate::signal::{Signal, Signals};
use crate::source::{
    PointSource,
    RandomSignal,
    lemma_pulls_fixed_by_seed,
    lemma_pulls_len,
    lemma_random_values_in_range,
    pulls,
    random_values,
    source_after,
};

verus! {

/// Progress is counted in thousandths of the full bar.
pub const PROGRESS_SCALE: u64 = 1000;

/// Progress gained per tick, in thousandths.
pub const PROGRESS_STEP: u64 = 1;

/// Number of points the sparkline shows.
pub const SPARKLINE_CAPACITY: usize = 300;

/// Points the sparkline replaces per tick.
pub const SPARKLINE_TICK_RATE: usize = 1;

/// Smallest value the sparkline's generator emits.
pub const SPARKLINE_LOW: u64 = 0;

/// Largest value the sparkline's generator emits.
pub const SPARKLINE_HIGH: u64 = 100;

/// Seed of the sparkline's generator, so that every run shows the same data.
pub const SPARKLINE_SEED: u64 = 42;

/// Number of points of the first chart signal.
pub const SIN1_CAPACITY: usize = 100;

/// Points the first chart signal replaces per tick.
pub const SIN1_TICK_RATE: usize = 5;

/// Number of points of the second chart signal.
pub const SIN2_CAPACITY: usize = 200;

/// Points the second chart signal replaces per tick.
pub const SIN2_TICK_RATE: usize = 10;

/// Lower bound of the chart's initial x-axis window.
pub const WINDOW_START: u64 = 0;

/// Upper bound of the chart's initial x-axis window.
pub const WINDOW_END: u64 = 20;

/// Everything the dashboard shows, owned in one place and changed only by
/// ticks, keys and the four directions.
pub struct TUIApp<S, T> {
    pub title: String,
    pub should_quit: bool,
    pub tabs: TabsState,
    pub show_chart: bool,
    /// Progress of the gauge in thousandths, always below `PROGRESS_SCALE`.
    pub progress: u64,
    pub sparkline: Signal<RandomSignal, u64>,
    pub tasks: StatefulList<String>,
    pub logs: RotatingBuffer<(String, String)>,
    pub signals: Signals<S, T>,
    pub barchart: RotatingBuffer<(String, u64)>,
    pub enhanced_graphics: bool,
}

impl<S: PointSource<T>, T> TUIApp<S, T> {
    pub open spec fn wf(&self) -> bool {
        &&& self.tabs.wf()
        &&& self.tasks.wf()
        &&& self.sparkline.wf()
        &&& self.signals.wf()
        &&& self.progress < PROGRESS_SCALE
    }

    /// `next` is what one tick makes of `self`: progress stepped, sparkline
    /// and chart signals ticked, logs and bar chart rotated, all else kept.
    pub open spec fn ticks_to(self, next: Self) -> bool {
        &&& next.progress == progress_step(
            self.progress as nat,
            PROGRESS_STEP as nat,
            PROGRESS_SCALE as nat,
        )
        &&& self.sparkline.ticks_to(next.sparkline)
        &&& self.signals.ticks_to(next.signals)
        &&& next.logs@ == rotate_right(self.logs@)
        &&& next.barchart@ == rotate_right(self.barchart@)
        &&& next == (TUIApp {
            progress: next.progress,
            sparkline: next.sparkline,
            signals: next.signals,
            logs: next.logs,
            barchart: next.barchart,
            ..self
        })
    }

    /// A dashboard over the given seed data. The chart's two signals draw
    /// from `sin1_source` and `sin2_source`; the sparkline from a generator
    /// seeded with `SPARKLINE_SEED`. No tab titles is an error.
    pub fn new(
        title: String,
        enhanced_graphics: bool,
        tasks: Vec<String>,
        logs: Vec<(String, String)>,
        events: Vec<(String, u64)>,
        tab_titles: Vec<String>,
        sin1_source: S,
        sin2_source: S,
    ) -> (r: Result<TUIApp<S, T>, ConfigError>)
        ensures
            tab_titles@.len() == 0 <==> r is Err,
            r is Err ==> r->Err_0 == ConfigError::EmptyTabs,
            r is Ok ==> ({
                let app = r->Ok_0;
                &&& app.wf()
                &&& app.title == title
                &&& app.enhanced_graphics == enhanced_graphics
                &&& !app.should_quit
                &&& app.show_chart
                &&& app.progress == 0
                &&& app.tabs.titles_spec() == tab_titles@
                &&& app.tabs.index_spec() == 0
                &&& app.tasks.items_spec() == tasks@
                &&& app.tasks.selected_spec() == None::<usize>
                &&& app.logs@ == logs@
                &&& app.barchart@ == events@
                &&& app.sparkline.points_spec() == random_values(
                    SPARKLINE_LOW,
                    SPARKLINE_HIGH,
                    SPARKLINE_SEED,
                    SPARKLINE_CAPACITY as nat,
                )
                &&& app.sparkline.tick_rate_spec() == SPARKLINE_TICK_RATE
                &&& app.sparkline.source_spec() == source_after(
                    RandomSignal::new_spec(SPARKLINE_LOW, SPARKLINE_HIGH, SPARKLINE_SEED),
                    SPARKLINE_CAPACITY as nat,
                )
                &&& app.signals.sin1_spec().points_spec() == pulls(sin1_source, SIN1_CAPACITY as nat)
                &&& app.signals.sin1_spec().source_spec() == source_after(
                    sin1_source,
                    SIN1_CAPACITY as nat,
                )
                &&& app.signals.sin1_spec().tick_rate_spec() == SIN1_TICK_RATE
                &&& app.signals.sin2_spec().points_spec() == pulls(sin2_source, SIN2_CAPACITY as nat)
                &&& app.signals.sin2_spec().source_spec() == source_after(
                    sin2_source,
                    SIN2_CAPACITY as nat,
                )
                &&& app.signals.sin2_spec().tick_rate_spec() == SIN2_TICK_RATE
                &&& app.signals.window_spec() == seq![WINDOW_START, WINDOW_END]
            }),
    {
        let tabs = match TabsState::new(tab_titles) {
            Ok(tabs) => tabs,
            Err(e) => {
                return Err(e);
            },
        };
        let mut rand_signal = RandomSignal::new(SPARKLINE_LOW, SPARKLINE_HIGH, SPARKLINE_SEED);
        let sparkline_points = rand_signal.take_points(SPARKLINE_CAPACITY);
        proof {
            lemma_random_values_in_range(
                SPARKLINE_LOW,
                SPARKLINE_HIGH,
                SPARKLINE_SEED,
                SPARKLINE_CAPACITY as nat,
            );
            lemma_pulls_fixed_by_seed(
                RandomSignal::new_spec(SPARKLINE_LOW, SPARKLINE_HIGH, SPARKLINE_SEED),
                SPARKLINE_CAPACITY as nat,
            );
        }
        let sparkline = match Signal::with_points(
            rand_signal,
            sparkline_points,
            SPARKLINE_TICK_RATE,
        ) {
            Ok(signal) => signal,
            Err(e) => {
                return Err(e);
            },
        };
        let sin1 = match Signal::new(sin1_source, SIN1_CAPACITY, SIN1_TICK_RATE) {
            Ok(signal) => signal,
            Err(e) => {
                return Err(e);
            },
        };
        let sin2 = match Signal::new(sin2_source, SIN2_CAPACITY, SIN2_TICK_RATE) {
            Ok(signal) => signal,
            Err(e) => {
                return Err(e);
            },
        };
        let signals = Signals::new(sin1, sin2, [WINDOW_START, WINDOW_END]);
        proof {
            assert(signals.window_spec() =~= seq![WINDOW_START, WINDOW_END]);
        }
        Ok(TUIApp {
            title,
            should_quit: false,
            tabs,
            show_chart: true,
            progress: 0,
            sparkline,
            tasks: StatefulList::with_items(tasks),
            logs: RotatingBuffer::new(logs),
            signals,
            barchart: RotatingBuffer::new(events),
            enhanced_graphics,
        })
    }

    /// Selects the previous task.
    pub fn on_up(&mut self)
        requires
            old(self).wf(),
        ensures
            final(self).wf(),
            final(self).tasks.items_spec() == old(self).tasks.items_spec(),
            final(self).tasks.selected_spec() == previous_selection(
                old(self).tasks.selected_spec(),
                old(self).tasks.items_spec().len(),
            ),
            *final(self) == (TUIApp { tasks: final(self).tasks, ..*old(self) }),
    {
        self.tasks.previous();
    }

    /// Selects the next task.
    pub fn on_down(&mut self)
        requires
            old(self).wf(),
        ensures
            final(self).wf(),
            final(self).tasks.items_spec() == old(self).tasks.items_spec(),
            final(self).tasks.selected_spec() == next_selection(
                old(self).tasks.selected_spec(),
                old(self).tasks.items_spec().len(),
            ),
            *final(self) == (TUIApp { tasks: final(self).tasks, ..*old(self) }),
    {
        self.tasks.next();
    }

    /// Moves to the next tab.
    pub fn on_right(&mut self)
        requires
            old(self).wf(),
        ensures
            final(self).wf(),
            final(self).tabs.titles_spec() == old(self).tabs.titles_spec(),
            final(self).tabs.index_spec() == next_tab(
                old(self).tabs.index_spec(),
                old(self).tabs.titles_spec().len(),
            ),
            *final(self) == (TUIApp { tabs: final(self).tabs, ..*old(self) }),
    {
        self.tabs.next();
    }

    /// Moves to the previous tab.
    pub fn on_left(&mut self)
        requires
            old(self).wf(),
        ensures
            final(self).wf(),
            final(self).tabs.titles_spec() == old(self).tabs.titles_spec(),
            final(self).tabs.index_spec() == previous_tab(
                old(self).tabs.index_spec(),
                old(self).tabs.titles_spec().len(),
            ),
            *final(self) == (TUIApp { tabs: final(self).tabs, ..*old(self) }),
    {
        self.tabs.previous();
    }

    /// `'q'` asks to quit, for good; `'t'` toggles the chart; any other key
    /// changes nothing.
    pub fn on_key(&mut self, c: char)
        requires
            old(self).wf(),
        ensures
            final(self).wf(),
            *final(self) == (TUIApp {
                should_quit: old(self).should_quit || c == 'q',
                show_chart: if c == 't' {
                    !old(self).show_chart
                } else {
                    old(self).show_chart
                },
                ..*old(self)
            }),
    {
        match c {
            'q' => {
                self.should_quit = true;
            },
            't' => {
                self.show_chart = !self.show_chart;
            },
            _ => {},
        }
    }

    /// Advances every moving part by one step, in a fixed order: progress,
    /// sparkline, chart signals, logs, bar chart.
    pub fn on_tick(&mut self)
        requires
            old(self).wf(),
        ensures
            final(self).wf(),
            old(self).ticks_to(*final(self)),
    {
        self.progress = advance_progress(self.progress, PROGRESS_STEP, PROGRESS_SCALE);
        self.sparkline.on_tick();
        self.signals.on_tick();
        self.logs.tick();
        self.barchart.tick();
    }
}

/// One tick keeps a dashboard well formed and keeps the length of each of
/// its windows.
proof fn lemma_tick_keeps_shape<S: PointSource<T>, T>(a: TUIApp<S, T>, b: TUIApp<S, T>)
    requires
        a.wf(),
        a.ticks_to(b),
    ensures
        b.wf(),
        b.sparkline.points_spec().len() == a.sparkline.points_spec().len(),
        b.signals.sin1_spec().points_spec().len() == a.signals.sin1_spec().points_spec().len(),
        b.signals.sin2_spec().points_spec().len() == a.signals.sin2_spec().points_spec().len(),
{
    lemma_pulls_len(a.sparkline.source_spec(), a.sparkline.tick_rate_spec());
    lemma_pulls_len(
        a.signals.sin1_spec().source_spec(),
        a.signals.sin1_spec().tick_rate_spec(),
    );
    lemma_pulls_len(
        a.signals.sin2_spec().source_spec(),
        a.signals.sin2_spec().tick_rate_spec(),
    );
}

/// After `i` ticks of a run that starts from a well-formed dashboard, progress
/// is the `i`-th step of the sawtooth, logs and bar chart are their `i`-fold
/// rotations, and every window has the length it started with.
pub proof fn lemma_dashboard_run<S: PointSource<T>, T>(run: Seq<TUIApp<S, T>>, i: int)
    requires
        0 <= i < run.len(),
        run[0].wf(),
        forall|j: int| 0 <= j < run.len() - 1 ==> #[trigger] run[j].ticks_to(run[j + 1]),
    ensures
        run[i].wf(),
        run[i].progress == progress_after(
            run[0].progress as nat,
            PROGRESS_STEP as nat,
            PROGRESS_SCALE as nat,
            i as nat,
        ),
        run[i].logs@ == rotated(run[0].logs@, i as nat),
        run[i].barchart@ == rotated(run[0].barchart@, i as nat),
        run[i].sparkline.points_spec().len() == run[0].sparkline.points_spec().len(),
        run[i].signals.sin1_spec().points_spec().len()
            == run[0].signals.sin1_spec().points_spec().len(),
        run[i].signals.sin2_spec().points_spec().len()
            == run[0].signals.sin2_spec().points_spec().len(),
    decreases i,
{
    if i > 0 {
        lemma_dashboard_run(run, i - 1);
        assert(run[i - 1].ticks_to(run[i - 1 + 1]));
        lemma_tick_keeps_shape(run[i - 1], run[i]);
    }
}

} // verus!
