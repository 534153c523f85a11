use rgb_led_matrix::timer::{Timer16Mhz, TimerCommand};

#[test]
fn prescaler_makes_one_tick_one_microsecond() {
    assert_eq!(Timer16Mhz::PRESCALER, 4);
    assert_eq!(16_000_000u32 >> Timer16Mhz::PRESCALER, 1_000_000);
}

#[test]
fn new_timer_is_idle() {
    let timer = Timer16Mhz::new();
    assert_eq!(timer.armed_cycles(), None);
    assert!(!timer.is_interrupt_enabled());
}

#[test]
fn start_arms_the_timer() {
    let mut timer = Timer16Mhz::new();
    assert_eq!(timer.start(250), TimerCommand::Start(250));
    assert_eq!(timer.armed_cycles(), Some(250));
    assert!(!timer.is_interrupt_enabled());
    assert_eq!(timer.start(u32::MAX), TimerCommand::Start(u32::MAX));
    assert_eq!(timer.armed_cycles(), Some(u32::MAX));
}

#[test]
fn clearing_the_event_leaves_the_timer_as_it_is() {
    let mut timer = Timer16Mhz::new();
    assert_eq!(timer.clear_event(), TimerCommand::ClearEvent);
    assert_eq!(timer.armed_cycles(), None);
    timer.start(9);
    timer.enable_interrupt();
    assert_eq!(timer.clear_event(), TimerCommand::ClearEvent);
    assert_eq!(timer.armed_cycles(), Some(9));
    assert!(timer.is_interrupt_enabled());
}

#[test]
fn interrupt_is_enabled_and_disabled() {
    let mut timer = Timer16Mhz::new();
    timer.start(3);
    assert_eq!(timer.enable_interrupt(), TimerCommand::EnableInterrupt);
    assert!(timer.is_interrupt_enabled());
    assert_eq!(timer.armed_cycles(), Some(3));
    assert_eq!(timer.disable_interrupt(), TimerCommand::DisableInterrupt);
    assert!(!timer.is_interrupt_enabled());
    assert_eq!(timer.armed_cycles(), Some(3));
}
