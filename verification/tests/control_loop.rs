use blinky::control::blink_cycle;
use blinky::control::run;
use blinky::control::startup;
use blinky::control::Config;
use blinky::double::TestHal;
use blinky::hal::Event;
use blinky::hal::InitStage;
use blinky::wrapper::configure_output;
use blinky::wrapper::Fault;

#[test]
fn blink_sequence_one_second_period() {
    // period = 1000 ms, pin = 23: over three seconds the pin reads
    // on (t = 0), off (t = 1000 ms), on (t = 2000 ms), off (t = 3000 ms).
    let mut hal = TestHal::new(1, 64);
    let cfg = Config { pin: 23, period_ms: 1000 };
    startup(&mut hal);
    assert_eq!(configure_output(&mut hal, cfg.pin, true), Ok(()));
    assert_eq!(hal.pin_level(23), Some(true));
    assert_eq!(blink_cycle(&mut hal, &cfg), Ok(()));
    assert_eq!(hal.pin_level(23), Some(false));
    assert_eq!(blink_cycle(&mut hal, &cfg), Ok(()));
    assert_eq!(hal.pin_level(23), Some(true));
    assert_eq!(blink_cycle(&mut hal, &cfg), Ok(()));
    assert_eq!(hal.pin_level(23), Some(false));
    let expected = vec![
        Event::SysinitStart,
        Event::SysinitApp,
        Event::SysinitEnd,
        Event::GpioInitOut(23, true),
        Event::MsToTicks(1000),
        Event::TimeDelay(1000),
        Event::GpioToggle(23),
        Event::MsToTicks(1000),
        Event::TimeDelay(1000),
        Event::GpioToggle(23),
        Event::MsToTicks(1000),
        Event::TimeDelay(1000),
        Event::GpioToggle(23),
    ];
    assert_eq!(hal.events(), &expected);
}

#[test]
fn init_stages_run_once_in_order() {
    let mut hal = TestHal::new(2, 32);
    let cfg = Config { pin: 5, period_ms: 10 };
    assert_eq!(run(&mut hal, &cfg, 2), Ok(()));
    let events = hal.events();
    assert_eq!(events[0], Event::SysinitStart);
    assert_eq!(events[1], Event::SysinitApp);
    assert_eq!(events[2], Event::SysinitEnd);
    let stages = events
        .iter()
        .filter(|e| {
            matches!(e, Event::SysinitStart | Event::SysinitApp | Event::SysinitEnd)
        })
        .count();
    assert_eq!(stages, 3);
    assert_eq!(hal.stage(), InitStage::Ready);
}

#[test]
fn run_keeps_hands_off_other_pins() {
    let mut hal = TestHal::new(1, 64);
    let cfg = Config { pin: 23, period_ms: 100 };
    assert_eq!(run(&mut hal, &cfg, 3), Ok(()));
    for e in hal.events().iter() {
        match e {
            Event::GpioInitOut(pin, _) => assert_eq!(*pin, 23),
            Event::GpioToggle(pin) => assert_eq!(*pin, 23),
            _ => {}
        }
    }
    assert_eq!(hal.pin_level(0), None);
    assert_eq!(hal.pin_level(22), None);
}

#[test]
fn run_even_cycle_count_leaves_pin_on() {
    let mut hal = TestHal::new(4, 32);
    assert_eq!(run(&mut hal, &Config { pin: 23, period_ms: 250 }, 4), Ok(()));
    assert_eq!(hal.pin_level(23), Some(true));
}

#[test]
fn run_odd_cycle_count_leaves_pin_off() {
    let mut hal = TestHal::new(4, 32);
    assert_eq!(run(&mut hal, &Config { pin: 23, period_ms: 250 }, 5), Ok(()));
    assert_eq!(hal.pin_level(23), Some(false));
}

#[test]
fn run_zero_cycles_only_initializes() {
    let mut hal = TestHal::new(1, 32);
    assert_eq!(run(&mut hal, &Config { pin: 0, period_ms: 1 }, 0), Ok(()));
    assert_eq!(hal.events().len(), 4);
    assert_eq!(hal.pin_level(0), Some(true));
}

#[test]
fn run_reports_gpio_fault_and_touches_nothing() {
    let mut hal = TestHal::new(1, 4);
    let cfg = Config { pin: 64, period_ms: 100 };
    assert_eq!(run(&mut hal, &cfg, 3), Err(Fault::GpioConfig));
    assert_eq!(hal.stage(), InitStage::Ready);
    assert_eq!(hal.pin_level(64), None);
    assert!(hal.events().iter().all(|e| !matches!(e, Event::GpioToggle(_))));
    assert!(hal.events().iter().all(|e| !matches!(e, Event::TimeDelay(_))));
}

#[test]
fn run_reports_overflow_fault_before_first_toggle() {
    let mut hal = TestHal::new(2, 4);
    let cfg = Config { pin: 2, period_ms: u32::MAX };
    assert_eq!(run(&mut hal, &cfg, 3), Err(Fault::TickOverflow));
    // The pin was configured on and the toggle for the cycle never occurred.
    assert_eq!(hal.pin_level(2), Some(true));
    assert!(hal.events().iter().all(|e| !matches!(e, Event::TimeDelay(_))));
    assert!(hal.events().iter().all(|e| !matches!(e, Event::GpioToggle(_))));
}
