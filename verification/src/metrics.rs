//! Metrics: how often per second something happens, on average.
//!
//! An [`AverageFrequencyMeasure`] counts periods (one call of `inc_period`
//! each, say once per frame) against a free-running counter. When more than
//! the log period has gone by since it began to count, it hands the average
//! number of periods per second to its action and begins anew.

use crate::readonly_cell::DynamicReadOnlyCell;
use vstd::prelude::*;

verus! {

/// A free-running counter of ticks.
pub trait TimerSource {
    /// The number of ticks that the source counts per second.
    spec fn ticks_per_second(&self) -> u32;

    /// The value of the counter now.
    fn current_value(&self) -> u32;

    /// The number of ticks that the source counts per second.
    fn frequency(&self) -> (frequency: u32)
        ensures
            frequency == self.ticks_per_second(),
    ;
}

/// The ticks that went by between two readings of the counter. A later
/// reading that is not greater than the earlier one is taken to have
/// wrapped around.
pub open spec fn ticks_between(last: u32, now: u32) -> int {
    if now > last {
        now - last
    } else {
        now + (u32::MAX - last)
    }
}

/// What a measure keeps: the ticks of one log period, the periods counted
/// so far, and the reading at which it began to count.
pub struct MeasureState {
    pub timer_delta_max: u32,
    pub counter_val: u32,
    pub timer_last_measured: u32,
}

impl MeasureState {
    /// Whether a period that ends at the reading `now` ends a log period
    /// too.
    pub open spec fn ends_cycle(self, now: u32) -> bool {
        self.counter_val != 0 && ticks_between(self.timer_last_measured, now)
            > self.timer_delta_max
    }

    /// The periods per second, on average, since the measure began to
    /// count, for a counter of `frequency` ticks per second.
    pub open spec fn average(self, now: u32, frequency: u32) -> int {
        self.counter_val * frequency / ticks_between(self.timer_last_measured, now)
    }

    /// What the measure keeps after a period that ends at the reading
    /// `now`. The first period after a log period begins the count; a
    /// period that ends a log period ends the count.
    pub open spec fn after_period(self, now: u32) -> MeasureState {
        if self.counter_val == 0 {
            MeasureState { counter_val: 1, timer_last_measured: now, ..self }
        } else if self.ends_cycle(now) {
            MeasureState { counter_val: 0, ..self }
        } else {
            MeasureState { counter_val: (self.counter_val + 1) as u32, ..self }
        }
    }
}

/// Counts periods against the counter in `timer_source` and hands the
/// average frequency to `action` once per log period.
pub struct AverageFrequencyMeasure<'a, T, F> {
    timer_source: &'a DynamicReadOnlyCell<T>,
    action: F,
    timer_delta_max: u32,
    counter_val: u32,
    timer_last_measured: u32,
}

impl<'a, T, F> View for AverageFrequencyMeasure<'a, T, F> {
    type V = MeasureState;

    closed spec fn view(&self) -> MeasureState {
        MeasureState {
            timer_delta_max: self.timer_delta_max,
            counter_val: self.counter_val,
            timer_last_measured: self.timer_last_measured,
        }
    }
}

impl<'a, T: TimerSource, F: Fn(u32)> AverageFrequencyMeasure<'a, T, F> {
    /// The cell that holds the counter.
    pub closed spec fn source(&self) -> DynamicReadOnlyCell<T> {
        *self.timer_source
    }

    /// What is done with each average.
    pub closed spec fn action(&self) -> F {
        self.action
    }

    /// The ticks per second of the counter.
    pub open spec fn frequency(&self) -> u32 {
        self.source()@.unwrap().ticks_per_second()
    }

    /// Whether the measure can be used: its counter is there and its action
    /// takes every frequency.
    pub closed spec fn wf(&self) -> bool {
        &&& self.timer_source@ is Some
        &&& forall|frequency: u32| call_requires(self.action, (frequency,))
    }

    /// Whether the measure can count one more period without running out
    /// of its 32 bits.
    pub open spec fn has_room(&self) -> bool {
        self@.counter_val < u32::MAX && self@.counter_val * self.frequency() <= u32::MAX
    }

    /// Whether the action was given the average, where a period that ends at
    /// the reading `now` ends a log period.
    pub open spec fn reported(&self, now: u32) -> bool {
        self@.ends_cycle(now) ==> call_ensures(
            self.action(),
            (self@.average(now, self.frequency()) as u32,),
            (),
        )
    }

    /// A measure that hands the average to `action` each time more than
    /// `log_period_ms` milliseconds have gone by.
    pub fn new(timer_source: &'a DynamicReadOnlyCell<T>, log_period_ms: u32, action: F) -> (measure:
        Self)
        requires
            timer_source@ is Some,
            timer_source@.unwrap().ticks_per_second() * log_period_ms <= u32::MAX,
            forall|frequency: u32| call_requires(action, (frequency,)),
        ensures
            measure.wf(),
            measure.source() == *timer_source,
            measure.action() == action,
            measure@ == (MeasureState {
                timer_delta_max: (timer_source@.unwrap().ticks_per_second() * log_period_ms
                    / 1000) as u32,
                counter_val: 0,
                timer_last_measured: 0,
            }),
    {
        let frequency = timer_source.get_ref().frequency();
        AverageFrequencyMeasure {
            timer_source,
            action,
            timer_delta_max: frequency * log_period_ms / 1000,
            timer_last_measured: 0,
            counter_val: 0,
        }
    }

    /// As `new`, for a caller that does not know whether the counter is
    /// there and whether the ticks of a log period fit 32 bits: where either
    /// fails there is no measure.
    pub fn try_new(
        timer_source: &'a DynamicReadOnlyCell<T>,
        log_period_ms: u32,
        action: F,
    ) -> (measure: Option<Self>)
        requires
            forall|frequency: u32| call_requires(action, (frequency,)),
        ensures
            measure is Some <==> timer_source@ is Some
                && timer_source@.unwrap().ticks_per_second() * log_period_ms <= u32::MAX,
            measure matches Some(measure) ==> measure.wf() && measure.source() == *timer_source
                && measure.action() == action && measure@ == (MeasureState {
                timer_delta_max: (timer_source@.unwrap().ticks_per_second() * log_period_ms
                    / 1000) as u32,
                counter_val: 0,
                timer_last_measured: 0,
            }),
    {
        match timer_source.try_get_ref() {
            Some(source) => {
                let frequency = source.frequency();
                if frequency.checked_mul(log_period_ms).is_some() {
                    Some(Self::new(timer_source, log_period_ms, action))
                } else {
                    None
                }
            },
            None => None,
        }
    }

    /// The periods counted since the count began.
    pub fn counter_val(&self) -> (count: u32)
        ensures
            count == self@.counter_val,
    {
        self.counter_val
    }

    /// Counts a period that ends now, at whatever the counter reads.
    pub fn inc_period(&mut self)
        requires
            old(self).wf(),
            old(self).has_room(),
        ensures
            final(self).wf(),
            final(self).source() == old(self).source(),
            final(self).action() == old(self).action(),
            exists|now: u32|
                final(self)@ == old(self)@.after_period(now) && #[trigger] old(self).reported(now),
    {
        let current_timer_value = self.timer_source.get_ref().current_value();
        self.record_period(current_timer_value);
        assert(old(self).reported(current_timer_value));
    }

    /// As `inc_period`, for a caller that does not know whether the measure
    /// has room for one more period: where it has none, nothing is counted.
    pub fn try_inc_period(&mut self) -> (counted: bool)
        requires
            old(self).wf(),
        ensures
            final(self).wf(),
            final(self).source() == old(self).source(),
            final(self).action() == old(self).action(),
            counted == old(self).has_room(),
            counted ==> exists|now: u32|
                final(self)@ == old(self)@.after_period(now) && #[trigger] old(self).reported(now),
            !counted ==> final(self)@ == old(self)@,
    {
        let frequency = self.timer_source.get_ref().frequency();
        if self.counter_val < u32::MAX && self.counter_val.checked_mul(frequency).is_some() {
            self.inc_period();
            true
        } else {
            false
        }
    }

    /// Counts a period that ends at the reading `current_timer_value`.
    /// Where this ends a log period, the average goes to the action, and
    /// comes back as well.
    pub fn record_period(&mut self, current_timer_value: u32) -> (report: Option<u32>)
        requires
            old(self).wf(),
            old(self).has_room(),
        ensures
            final(self).wf(),
            final(self).source() == old(self).source(),
            final(self).action() == old(self).action(),
            final(self)@ == old(self)@.after_period(current_timer_value),
            old(self).reported(current_timer_value),
            report == if old(self)@.ends_cycle(current_timer_value) {
                Some(old(self)@.average(current_timer_value, old(self).frequency()) as u32)
            } else {
                None
            },
    {
        if self.counter_val == 0 {
            self.timer_last_measured = current_timer_value;
            self.counter_val += 1;
            return None;
        }
        let time_delta = if current_timer_value > self.timer_last_measured {
            current_timer_value - self.timer_last_measured
        } else {
            current_timer_value + (u32::MAX - self.timer_last_measured)
        };
        if time_delta > self.timer_delta_max {
            Some(self.trigger_end_cycle(time_delta))
        } else {
            self.counter_val += 1;
            None
        }
    }

    /// Ends the count after `time_delta` ticks: the average goes to the
    /// action.
    fn trigger_end_cycle(&mut self, time_delta: u32) -> (avg_freq: u32)
        requires
            old(self).wf(),
            old(self).has_room(),
            time_delta > 0,
        ensures
            final(self).wf(),
            final(self).source() == old(self).source(),
            final(self).action() == old(self).action(),
            final(self)@ == (MeasureState { counter_val: 0, ..old(self)@ }),
            avg_freq == old(self)@.counter_val * old(self).frequency() / (time_delta as int),
            call_ensures(old(self).action(), (avg_freq,), ()),
    {
        let timer_frequency = self.timer_source.get_ref().frequency();
        let avg_freq = self.counter_val * timer_frequency / time_delta;
        (self.action)(avg_freq);
        self.counter_val = 0;
        avg_freq
    }
}

} // verus!
