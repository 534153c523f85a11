use rgb_led_matrix::metrics::{AverageFrequencyMeasure, TimerSource};
use rgb_led_matrix::readonly_cell::DynamicReadOnlyCell;
use std::cell::{Cell, RefCell};

/// A counter that reads what it was last set to.
struct SetCounter {
    now: Cell<u32>,
    frequency: u32,
}

impl SetCounter {
    fn cell(frequency: u32) -> DynamicReadOnlyCell<SetCounter> {
        DynamicReadOnlyCell::from(SetCounter { now: Cell::new(0), frequency })
    }
}

impl TimerSource for SetCounter {
    fn ticks_per_second(&self) -> u32 {
        self.frequency
    }

    fn current_value(&self) -> u32 {
        self.now.get()
    }

    fn frequency(&self) -> u32 {
        self.frequency
    }
}

#[test]
fn first_period_starts_the_count() {
    let source = SetCounter::cell(1000);
    let reported = RefCell::new(Vec::new());
    let mut measure =
        AverageFrequencyMeasure::new(&source, 1000, |frequency| reported.borrow_mut().push(frequency));
    assert_eq!(measure.counter_val(), 0);
    assert_eq!(measure.record_period(123_456), None);
    assert_eq!(measure.counter_val(), 1);
    assert!(reported.borrow().is_empty());
}

#[test]
fn average_is_reported_once_the_log_period_is_over() {
    let source = SetCounter::cell(1000);
    let reported = RefCell::new(Vec::new());
    let mut measure =
        AverageFrequencyMeasure::new(&source, 1000, |frequency| reported.borrow_mut().push(frequency));
    assert_eq!(measure.record_period(0), None);
    for step in 1..=10 {
        assert_eq!(measure.record_period(step * 100), None);
        assert_eq!(measure.counter_val(), step + 1);
    }
    assert!(reported.borrow().is_empty());
    assert_eq!(measure.record_period(1100), Some(10));
    assert_eq!(measure.counter_val(), 0);
    assert_eq!(*reported.borrow(), vec![10]);
}

#[test]
fn count_starts_anew_after_a_report() {
    let source = SetCounter::cell(1000);
    let reported = RefCell::new(Vec::new());
    let mut measure =
        AverageFrequencyMeasure::new(&source, 100, |frequency| reported.borrow_mut().push(frequency));
    assert_eq!(measure.record_period(0), None);
    assert_eq!(measure.record_period(50), None);
    assert_eq!(measure.record_period(100), None);
    assert_eq!(measure.record_period(101), Some(29));
    assert_eq!(measure.record_period(5000), None);
    assert_eq!(measure.counter_val(), 1);
    assert_eq!(measure.record_period(5050), None);
    assert_eq!(measure.record_period(5200), Some(10));
    assert_eq!(*reported.borrow(), vec![29, 10]);
}

#[test]
fn log_period_is_scaled_by_the_frequency() {
    let source = SetCounter::cell(32_768);
    let reported = RefCell::new(Vec::new());
    let mut measure =
        AverageFrequencyMeasure::new(&source, 500, |frequency| reported.borrow_mut().push(frequency));
    assert_eq!(measure.record_period(10), None);
    assert_eq!(measure.record_period(16_394), None);
    assert_eq!(measure.record_period(16_395), Some(3));
    assert_eq!(*reported.borrow(), vec![3]);
}

#[test]
fn counter_that_wrapped_around() {
    let source = SetCounter::cell(1000);
    let reported = RefCell::new(Vec::new());
    let mut measure =
        AverageFrequencyMeasure::new(&source, 10, |frequency| reported.borrow_mut().push(frequency));
    assert_eq!(measure.record_period(u32::MAX - 10), None);
    assert_eq!(measure.record_period(u32::MAX - 5), None);
    assert_eq!(measure.record_period(5), Some(133));
    assert_eq!(*reported.borrow(), vec![133]);
}

#[test]
fn reading_that_did_not_move_counts_as_a_whole_turn() {
    let source = SetCounter::cell(1000);
    let reported = RefCell::new(Vec::new());
    let mut measure =
        AverageFrequencyMeasure::new(&source, 10, |frequency| reported.borrow_mut().push(frequency));
    assert_eq!(measure.record_period(77), None);
    assert_eq!(measure.record_period(77), Some(0));
    assert_eq!(*reported.borrow(), vec![0]);
}

#[test]
fn no_measure_without_a_counter() {
    let source = DynamicReadOnlyCell::<SetCounter>::new();
    assert!(AverageFrequencyMeasure::try_new(&source, 1000, |_| ()).is_none());
}

#[test]
fn no_measure_where_the_log_period_does_not_fit() {
    let source = SetCounter::cell(5_000_000);
    assert!(AverageFrequencyMeasure::try_new(&source, 859, |_| ()).is_none());
    assert!(AverageFrequencyMeasure::try_new(&source, 858, |_| ()).is_some());
    let fastest = SetCounter::cell(u32::MAX);
    assert!(AverageFrequencyMeasure::try_new(&fastest, 2, |_| ()).is_none());
    assert!(AverageFrequencyMeasure::try_new(&fastest, 1, |_| ()).is_some());
    assert!(AverageFrequencyMeasure::try_new(&fastest, 0, |_| ()).is_some());
}

#[test]
fn checked_measure_counts_like_any_other() {
    let source = SetCounter::cell(1000);
    let reported = RefCell::new(Vec::new());
    let mut measure =
        AverageFrequencyMeasure::try_new(&source, 1000, |frequency| reported.borrow_mut().push(frequency))
            .unwrap();
    for now in [0, 400, 800, 1200] {
        source.get_ref().now.set(now);
        assert!(measure.try_inc_period());
    }
    assert_eq!(measure.counter_val(), 0);
    assert_eq!(*reported.borrow(), vec![2]);
}

#[test]
fn nothing_is_counted_where_the_average_would_not_fit() {
    let source = SetCounter::cell(u32::MAX);
    let reported = RefCell::new(Vec::new());
    let mut measure =
        AverageFrequencyMeasure::try_new(&source, 1, |frequency| reported.borrow_mut().push(frequency))
            .unwrap();
    source.get_ref().now.set(10);
    assert!(measure.try_inc_period());
    source.get_ref().now.set(20);
    assert!(measure.try_inc_period());
    assert_eq!(measure.counter_val(), 2);
    source.get_ref().now.set(30);
    assert!(!measure.try_inc_period());
    assert_eq!(measure.counter_val(), 2);
    assert!(reported.borrow().is_empty());
}

#[test]
fn periods_are_counted_against_the_source() {
    let source = SetCounter::cell(1000);
    let reported = RefCell::new(Vec::new());
    let mut measure =
        AverageFrequencyMeasure::new(&source, 1000, |frequency| reported.borrow_mut().push(frequency));
    source.get_ref().now.set(500);
    measure.inc_period();
    assert_eq!(measure.counter_val(), 1);
    for step in 1..=4 {
        source.get_ref().now.set(500 + step * 250);
        measure.inc_period();
    }
    assert_eq!(measure.counter_val(), 5);
    assert!(reported.borrow().is_empty());
    source.get_ref().now.set(1750);
    measure.inc_period();
    assert_eq!(measure.counter_val(), 0);
    assert_eq!(*reported.borrow(), vec![4]);
}
