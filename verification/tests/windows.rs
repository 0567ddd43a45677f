use phone_validation::batch_window::{next_window, windows, Window, WINDOW_SIZE};
use phone_validation::rate_limiter::{remaining_delay_millis, INTERVAL_MILLIS, OPERATIONS_PER_SECOND};

#[test]
fn window_size_is_the_rate_cap() {
    assert_eq!(WINDOW_SIZE, 10);
    assert_eq!(OPERATIONS_PER_SECOND, 10);
    assert_eq!(INTERVAL_MILLIS, 1000);
}

#[test]
fn full_window_holds_ten_rows() {
    assert_eq!(next_window(0, 25), Some(Window { start: 0, end: 10 }));
    assert_eq!(next_window(10, 25), Some(Window { start: 10, end: 20 }));
}

#[test]
fn last_window_may_be_shorter_and_holds_the_last_row() {
    assert_eq!(next_window(20, 25), Some(Window { start: 20, end: 25 }));
    assert_eq!(next_window(0, 1), Some(Window { start: 0, end: 1 }));
}

#[test]
fn no_window_at_or_after_the_end() {
    assert_eq!(next_window(25, 25), None);
    assert_eq!(next_window(30, 25), None);
    assert_eq!(next_window(0, 0), None);
}

#[test]
fn window_near_the_largest_index_does_not_overflow() {
    assert_eq!(
        next_window(usize::MAX - 3, usize::MAX),
        Some(Window { start: usize::MAX - 3, end: usize::MAX })
    );
}

#[test]
fn twenty_five_rows_fall_into_three_windows() {
    assert_eq!(
        windows(25),
        vec![
            Window { start: 0, end: 10 },
            Window { start: 10, end: 20 },
            Window { start: 20, end: 25 },
        ]
    );
}

#[test]
fn no_rows_no_windows() {
    assert!(windows(0).is_empty());
}

#[test]
fn window_count_is_a_tenth_rounded_up() {
    assert_eq!(windows(1).len(), 1);
    assert_eq!(windows(9).len(), 1);
    assert_eq!(windows(10).len(), 1);
    assert_eq!(windows(11).len(), 2);
    assert_eq!(windows(20).len(), 2);
    assert_eq!(windows(21).len(), 3);
    assert_eq!(windows(1000).len(), 100);
    assert_eq!(windows(1001).len(), 101);
}

#[test]
fn windows_tile_the_rows() {
    for total in 0..64usize {
        let all = windows(total);
        let mut next = 0;
        for w in &all {
            assert_eq!(w.start, next);
            assert!(w.start < w.end);
            assert!(w.end - w.start <= 10);
            next = w.end;
        }
        assert_eq!(next, total);
    }
}

#[test]
fn delay_is_what_is_missing_to_a_second() {
    assert_eq!(remaining_delay_millis(0), 1000);
    assert_eq!(remaining_delay_millis(1), 999);
    assert_eq!(remaining_delay_millis(400), 600);
    assert_eq!(remaining_delay_millis(999), 1);
}

#[test]
fn delay_is_zero_once_the_second_is_over() {
    assert_eq!(remaining_delay_millis(1000), 0);
    assert_eq!(remaining_delay_millis(1001), 0);
    assert_eq!(remaining_delay_millis(60_000), 0);
    assert_eq!(remaining_delay_millis(u128::MAX), 0);
}
