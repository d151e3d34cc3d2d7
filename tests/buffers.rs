use tui_dashboard::progress::advance_progress;
use tui_dashboard::RotatingBuffer;

#[test]
fn rotating_tick_moves_last_to_front() {
    let mut b = RotatingBuffer::new(vec![1u32, 2, 3, 4]);
    b.tick();
    assert_eq!(b.items(), &vec![4, 1, 2, 3]);
    b.tick();
    assert_eq!(b.items(), &vec![3, 4, 1, 2]);
    assert_eq!(b.len(), 4);
}

#[test]
fn rotating_empty_buffer_stays_empty() {
    let mut b: RotatingBuffer<u8> = RotatingBuffer::new(vec![]);
    b.tick();
    assert!(b.items().is_empty());
}

#[test]
fn rotating_full_cycle_restores_order_and_membership() {
    let start = vec![("a", 1u64), ("b", 2), ("b", 2), ("c", 3), ("d", 4)];
    let mut b = RotatingBuffer::new(start.clone());
    let mut after_two = RotatingBuffer::new(start.clone());
    after_two.tick();
    after_two.tick();
    for _ in 0..start.len() {
        b.tick();
    }
    assert_eq!(b.items(), &start);
    // 7 ticks on a length-5 buffer leave the order of 2 ticks.
    b.tick();
    b.tick();
    assert_eq!(b.items(), after_two.items());
    let mut sorted_b = b.items().clone();
    sorted_b.sort();
    let mut sorted_start = start.clone();
    sorted_start.sort();
    assert_eq!(sorted_b, sorted_start);
}

#[test]
fn progress_steps_by_one_thousandth() {
    assert_eq!(advance_progress(0, 1, 1000), 1);
    assert_eq!(advance_progress(500, 1, 1000), 501);
    assert_eq!(advance_progress(998, 1, 1000), 999);
}

#[test]
fn progress_wraps_instead_of_reaching_scale() {
    assert_eq!(advance_progress(999, 1, 1000), 0);
    assert_eq!(advance_progress(7, 5, 10), 0);
    assert_eq!(advance_progress(4, 5, 10), 9);
    assert_eq!(advance_progress(u64::MAX - 1, u64::MAX, u64::MAX), 0);
}

#[test]
fn progress_wraps_within_ceiling_of_scale_over_step() {
    // ceil(1000 / 1) = 1000 steps from zero.
    let mut p = 0u64;
    let mut wrapped = false;
    for _ in 0..1000 {
        p = advance_progress(p, 1, 1000);
        assert!(p < 1000);
        if p == 0 {
            wrapped = true;
        }
    }
    assert!(wrapped);
    // ceil(10 / 3) = 4 steps from zero: 3, 6, 9, 0.
    let mut q = 0u64;
    let mut seen_zero = false;
    for _ in 0..4 {
        q = advance_progress(q, 3, 10);
        assert!(q < 10);
        seen_zero = seen_zero || q == 0;
    }
    assert!(seen_zero);
}
