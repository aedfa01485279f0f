use blinky::control::startup;
use blinky::double::TestHal;
use blinky::hal::Event;
use blinky::wrapper::configure_output;
use blinky::wrapper::delay_ms;
use blinky::wrapper::toggle;
use blinky::wrapper::Fault;

#[test]
fn toggle_round_trip_restores_level() {
    let mut hal = TestHal::new(1, 8);
    startup(&mut hal);
    assert_eq!(configure_output(&mut hal, 3, true), Ok(()));
    toggle(&mut hal, 3);
    assert_eq!(hal.pin_level(3), Some(false));
    toggle(&mut hal, 3);
    assert_eq!(hal.pin_level(3), Some(true));
}

#[test]
fn toggle_round_trip_from_low() {
    let mut hal = TestHal::new(1, 8);
    startup(&mut hal);
    assert_eq!(configure_output(&mut hal, 6, false), Ok(()));
    toggle(&mut hal, 6);
    assert_eq!(hal.pin_level(6), Some(true));
    toggle(&mut hal, 6);
    assert_eq!(hal.pin_level(6), Some(false));
}

#[test]
fn delay_converts_then_waits() {
    // Eight ticks to the millisecond: 100 ms becomes a delay of 800 ticks,
    // converted first, waited after.
    let mut hal = TestHal::new(8, 8);
    startup(&mut hal);
    assert_eq!(delay_ms(&mut hal, 100), Ok(()));
    assert_eq!(hal.events()[3], Event::MsToTicks(100));
    assert_eq!(hal.events()[4], Event::TimeDelay(800));
    assert_eq!(hal.events().len(), 5);
}

#[test]
fn delay_zero_is_permitted() {
    let mut hal = TestHal::new(3, 8);
    startup(&mut hal);
    assert_eq!(delay_ms(&mut hal, 0), Ok(()));
    assert_eq!(hal.events()[4], Event::TimeDelay(0));
}

#[test]
fn delay_overflow_halts_before_the_delay_primitive() {
    // Two ticks to the millisecond: the largest millisecond count has no
    // tick representation, so the call fails before any wait.
    let mut hal = TestHal::new(2, 8);
    startup(&mut hal);
    assert_eq!(delay_ms(&mut hal, u32::MAX), Err(Fault::TickOverflow));
    assert_eq!(hal.events()[3], Event::MsToTicks(u32::MAX));
    assert_eq!(hal.events().len(), 4);
    assert!(hal.events().iter().all(|e| !matches!(e, Event::TimeDelay(_))));
}

#[test]
fn delay_conversion_boundary() {
    let mut hal = TestHal::new(2, 8);
    startup(&mut hal);
    assert_eq!(delay_ms(&mut hal, u32::MAX / 2), Ok(()));
    assert_eq!(delay_ms(&mut hal, u32::MAX / 2 + 1), Err(Fault::TickOverflow));
}

#[test]
fn configure_output_failure_is_reported() {
    let mut hal = TestHal::new(1, 4);
    startup(&mut hal);
    assert_eq!(configure_output(&mut hal, 9, true), Err(Fault::GpioConfig));
    assert_eq!(hal.pin_level(9), None);
}

#[test]
fn configure_output_reconfigures_a_pin() {
    let mut hal = TestHal::new(1, 4);
    startup(&mut hal);
    assert_eq!(configure_output(&mut hal, 2, false), Ok(()));
    assert_eq!(hal.pin_level(2), Some(false));
    assert_eq!(configure_output(&mut hal, 2, true), Ok(()));
    assert_eq!(hal.pin_level(2), Some(true));
}
