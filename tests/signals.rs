use tui_dashboard::{ConfigError, PointSource, RandomSignal, Signal, Signals};

#[derive(Clone, Copy)]
struct SinSignal {
    x: f64,
    interval: f64,
    period: f64,
    scale: f64,
}

impl PointSource<(f64, f64)> for SinSignal {
    fn peek(&self) -> (f64, f64) {
        (self.x, (self.x / self.period).sin() * self.scale)
    }

    fn advanced(&self) -> SinSignal {
        SinSignal { x: self.x + self.interval, ..*self }
    }

    fn next_point(&mut self) -> (f64, f64) {
        let point = self.peek();
        *self = self.advanced();
        point
    }
}

fn sin(interval: f64, period: f64, scale: f64) -> SinSignal {
    SinSignal { x: 0.0, interval, period, scale }
}

#[test]
fn window_tick_evicts_front_and_appends_back() {
    let mut s = Signal::new(sin(1.0, 3.0, 18.0), 5, 2).unwrap();
    let before = s.points().clone();
    assert_eq!(before.len(), 5);
    s.on_tick();
    let after = s.points();
    assert_eq!(after.len(), 5);
    assert_eq!(&after[0..3], &before[2..5]);
    assert_eq!(after[3].0, 5.0);
    assert_eq!(after[4].0, 6.0);
    assert!(!after.contains(&before[0]));
    assert!(!after.contains(&before[1]));
}

#[test]
fn window_length_constant_over_many_ticks() {
    let mut s = Signal::new(RandomSignal::new(0, 9, 3), 7, 3).unwrap();
    for _ in 0..50 {
        s.on_tick();
        assert_eq!(s.points().len(), 7);
        assert_eq!(s.tick_rate(), 3);
    }
}

#[test]
fn window_tick_rate_equal_to_capacity_replaces_all() {
    let mut s = Signal::new(RandomSignal::new(0, 100, 42), 3, 3).unwrap();
    assert_eq!(s.points(), &vec![100, 75, 82]);
    s.on_tick();
    assert_eq!(s.points(), &vec![45, 46, 72]);
}

#[test]
fn window_zero_tick_rate_keeps_points() {
    let mut s = Signal::new(RandomSignal::new(0, 100, 42), 4, 0).unwrap();
    let before = s.points().clone();
    s.on_tick();
    assert_eq!(s.points(), &before);
}

#[test]
fn window_tick_rate_above_capacity_rejected() {
    let r = Signal::new(RandomSignal::new(0, 100, 42), 2, 3);
    assert_eq!(r.err(), Some(ConfigError::TickRateExceedsCapacity));
    let r2 = Signal::with_points(RandomSignal::new(0, 1, 1), vec![1u64], 2);
    assert_eq!(r2.err(), Some(ConfigError::TickRateExceedsCapacity));
}

#[test]
fn window_with_points_keeps_given_points() {
    let s = Signal::with_points(RandomSignal::new(0, 100, 42), vec![5u64, 6, 7], 1).unwrap();
    assert_eq!(s.points(), &vec![5, 6, 7]);
}

#[test]
fn group_tick_moves_window_and_both_signals() {
    let a = Signal::new(sin(0.2, 3.0, 18.0), 100, 5).unwrap();
    let b = Signal::new(sin(0.1, 2.0, 10.0), 200, 10).unwrap();
    let mut g = Signals::new(a, b, [0, 20]);
    let a_before = g.sin1().points().clone();
    let b_before = g.sin2().points().clone();
    g.on_tick();
    assert_eq!(g.window(), [1, 21]);
    assert_eq!(&g.sin1().points()[0..95], &a_before[5..100]);
    assert_eq!(&g.sin2().points()[0..190], &b_before[10..200]);
    assert_eq!(g.sin1().points().len(), 100);
    assert_eq!(g.sin2().points().len(), 200);
    for _ in 0..9 {
        g.on_tick();
    }
    let w = g.window();
    assert_eq!(w, [10, 30]);
    assert_eq!(w[1] - w[0], 20);
}

#[test]
fn group_window_width_kept_across_wrap() {
    let a = Signal::new(RandomSignal::new(0, 1, 1), 1, 1).unwrap();
    let b = Signal::new(RandomSignal::new(0, 1, 2), 1, 1).unwrap();
    let mut g = Signals::new(a, b, [u64::MAX - 20, u64::MAX]);
    g.on_tick();
    assert_eq!(g.window(), [u64::MAX - 19, 0]);
    assert_eq!(g.window()[1].wrapping_sub(g.window()[0]), 20);
}

#[test]
fn random_values_from_seed() {
    let mut r = RandomSignal::new(0, 100, 42);
    assert_eq!(r.take_points(5), vec![100, 75, 82, 45, 46]);
    assert_eq!(r.state, 12546512532490043765);
    let mut z = RandomSignal::new(0, 100, 0);
    assert_eq!(z.draw(), 18);
    assert_eq!(z.draw(), 84);
    assert_eq!(z.draw(), 23);
}

#[test]
fn random_same_seed_same_sequence() {
    let mut a = RandomSignal::new(10, 20, 777);
    let mut b = RandomSignal::new(10, 20, 777);
    let va = a.take_points(64);
    let vb: Vec<u64> = (0..64).map(|_| b.next_point()).collect();
    assert_eq!(va, vb);
    assert!(va.iter().all(|v| (10..=20).contains(v)));
}

#[test]
fn random_single_value_range_and_full_range() {
    let mut one = RandomSignal::new(7, 7, 1);
    assert_eq!(one.take_points(3), vec![7, 7, 7]);
    let mut full = RandomSignal::new(0, u64::MAX, 42);
    assert_eq!(full.take_points(2), vec![1220265334, 484179026]);
}

#[derive(Clone, Copy)]
struct CycleSource {
    next: u32,
    period: u32,
}

impl PointSource<u32> for CycleSource {
    fn peek(&self) -> u32 {
        self.next
    }

    fn advanced(&self) -> CycleSource {
        CycleSource { next: (self.next + 1) % self.period, ..*self }
    }

    fn next_point(&mut self) -> u32 {
        let point = self.peek();
        *self = self.advanced();
        point
    }
}

#[test]
fn window_tick_appends_next_source_values() {
    let mut s = Signal::new(CycleSource { next: 0, period: 3 }, 5, 2).unwrap();
    assert_eq!(s.points(), &vec![0, 1, 2, 0, 1]);
    s.on_tick();
    assert_eq!(s.points(), &vec![2, 0, 1, 2, 0]);
    s.on_tick();
    assert_eq!(s.points(), &vec![1, 2, 0, 1, 2]);
}

#[test]
fn window_over_sine_appends_following_samples() {
    let src = sin(1.0, 3.0, 18.0);
    let mut s = Signal::new(src, 5, 2).unwrap();
    let mut probe = src;
    let expected: Vec<(f64, f64)> = (0..7).map(|_| probe.next_point()).collect();
    assert_eq!(s.points(), &expected[0..5].to_vec());
    s.on_tick();
    assert_eq!(s.points(), &expected[2..7].to_vec());
}

#[test]
fn window_same_source_same_points_after_ticks() {
    let mut a = Signal::new(RandomSignal::new(0, 100, 9), 10, 4).unwrap();
    let mut b = Signal::new(RandomSignal::new(0, 100, 9), 10, 4).unwrap();
    for _ in 0..5 {
        a.on_tick();
        b.on_tick();
        assert_eq!(a.points(), b.points());
    }
}
