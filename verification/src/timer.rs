//! The refresh timer: a one-shot timer that counts microseconds.
//!
//! The timer runs from a 16 MHz clock divided by `2^PRESCALER`, which makes
//! one tick one microsecond. Once started it counts up to the number of
//! ticks it was given, raises its compare event, and clears and stops
//! itself. The event reaches the processor only while the timer's interrupt
//! is enabled.
//!
//! This type is the driver's side of that timer: it keeps what the hardware
//! was last told, and each operation hands out the command to pass on.

use vstd::prelude::*;

verus! {

/// A command for the hardware timer.
#[derive(Clone, Copy, Debug, PartialEq, Eq, Structural)]
pub enum TimerCommand {
    /// Load the timer with this many ticks and start counting from zero.
    Start(u32),
    /// Let the compare event interrupt the processor.
    EnableInterrupt,
    /// Keep the compare event from interrupting the processor.
    DisableInterrupt,
    /// Clear the compare event, so that it is not taken for one that is
    /// still to come.
    ClearEvent,
}

/// The refresh timer, as the driver last left it.
pub struct Timer16Mhz {
    cycles: Option<u32>,
    interrupt: bool,
}

impl Timer16Mhz {
    ///  0 -> 16 MHz, 1 -> 8 MHz, ... 4 -> 1 MHz
    pub const PRESCALER: u8 = 4;

    /// The ticks the timer was last started with, if it was started.
    pub closed spec fn armed(&self) -> Option<u32> {
        self.cycles
    }

    /// Whether the compare event interrupts the processor.
    pub closed spec fn interrupt_enabled(&self) -> bool {
        self.interrupt
    }

    /// A timer that was not started yet and whose interrupt is disabled.
    pub fn new() -> (timer: Self)
        ensures
            timer.armed() is None,
            !timer.interrupt_enabled(),
    {
        Timer16Mhz { cycles: None, interrupt: false }
    }

    /// Arms the timer: it fires once, `cycles` ticks from now.
    pub fn start(&mut self, cycles: u32) -> (command: TimerCommand)
        ensures
            command == TimerCommand::Start(cycles),
            final(self).armed() == Some(cycles),
            final(self).interrupt_enabled() == old(self).interrupt_enabled(),
    {
        self.cycles = Some(cycles);
        TimerCommand::Start(cycles)
    }

    /// Lets the timer interrupt the processor when it fires.
    pub fn enable_interrupt(&mut self) -> (command: TimerCommand)
        ensures
            command == TimerCommand::EnableInterrupt,
            final(self).interrupt_enabled(),
            final(self).armed() == old(self).armed(),
    {
        self.interrupt = true;
        TimerCommand::EnableInterrupt
    }

    /// Keeps the timer from interrupting the processor.
    pub fn disable_interrupt(&mut self) -> (command: TimerCommand)
        ensures
            command == TimerCommand::DisableInterrupt,
            !final(self).interrupt_enabled(),
            final(self).armed() == old(self).armed(),
    {
        self.interrupt = false;
        TimerCommand::DisableInterrupt
    }

    /// Clears the compare event of a timer that has fired. The timer stays
    /// as it is otherwise.
    pub fn clear_event(&self) -> (command: TimerCommand)
        ensures
            command == TimerCommand::ClearEvent,
    {
        TimerCommand::ClearEvent
    }

    /// The ticks the timer was last started with, if it was started.
    pub fn armed_cycles(&self) -> (cycles: Option<u32>)
        ensures
            cycles == self.armed(),
    {
        self.cycles
    }

    /// Whether the compare event interrupts the processor.
    pub fn is_interrupt_enabled(&self) -> (enabled: bool)
        ensures
            enabled == self.interrupt_enabled(),
    {
        self.interrupt
    }
}

} // verus!
