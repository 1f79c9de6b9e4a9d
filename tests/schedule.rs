use morseclock_hw::{approximate_pause_repeats, Action, DutyCycle, Error, Format, Runner, Timing};

#[test]
fn short_pauses_are_one_slice() {
    assert_eq!(approximate_pause_repeats(0), (0, 1));
    assert_eq!(approximate_pause_repeats(150), (150, 1));
    assert_eq!(approximate_pause_repeats(200), (200, 1));
}

#[test]
fn long_pauses_are_split_near_200_ms() {
    assert_eq!(approximate_pause_repeats(1000), (200, 5));
    assert_eq!(approximate_pause_repeats(1099), (219, 5));
    assert_eq!(approximate_pause_repeats(599), (299, 2));
    assert_eq!(approximate_pause_repeats(201), (201, 1));
    let (slice, count) = approximate_pause_repeats(30000);
    assert_eq!((slice, count), (200, 150));
}

#[test]
fn duty_cycle_bounds() {
    assert_eq!(DutyCycle::from_millionths(0), Err(Error::InvalidDutyCycle));
    assert_eq!(DutyCycle::from_millionths(-250000), Err(Error::InvalidDutyCycle));
    assert_eq!(DutyCycle::from_millionths(1000001), Err(Error::InvalidDutyCycle));
    assert_eq!(DutyCycle::from_millionths(1000000).unwrap().millionths(), 1000000);
    assert_eq!(DutyCycle::from_millionths(1).unwrap().millionths(), 1);
    assert_eq!(DutyCycle::from_millionths(500000).unwrap().millionths(), 500000);
}

fn timing() -> Timing {
    let short = DutyCycle::from_millionths(250000).unwrap();
    let long = DutyCycle::from_millionths(750000).unwrap();
    Timing::new(1000, short, long)
}

#[test]
fn timing_splits_pulses() {
    let t = timing();
    assert_eq!(t.base, 1000);
    assert_eq!((t.short_on, t.short_off), (250, 750));
    assert_eq!((t.long_on, t.long_off), (750, 250));
    let third = DutyCycle::from_millionths(333333).unwrap();
    let full = DutyCycle::from_millionths(1000000).unwrap();
    let t = Timing::new(10, third, full);
    assert_eq!((t.short_on, t.short_off), (3, 6));
    assert_eq!((t.long_on, t.long_off), (10, 0));
}

#[test]
fn runner_plays_symbols_then_pause() {
    let t = timing();
    let mut r = Runner::new(t, 1000, Format::Hour24);
    assert_eq!(r.step(false), Action::Sample);
    r.begin_cycle(1, 5);
    let short = Action::Pulse(250, 750);
    let long = Action::Pulse(750, 250);
    let mut got = Vec::new();
    for _ in 0..16 {
        got.push(r.step(false));
    }
    let mut want = vec![short, long, long, long, long, Action::Sleep(1000)];
    want.extend([long; 5]);
    want.extend([short; 5]);
    assert_eq!(got, want);
    for _ in 0..5 {
        assert_eq!(r.step(false), Action::Sleep(200));
    }
    assert_eq!(r.step(false), Action::Sample);
    assert!(!r.is_stopped());
}

#[test]
fn cancellation_during_pause_stops_at_next_slice() {
    let mut r = Runner::new(timing(), 30000, Format::Hour12);
    assert_eq!(r.step(false), Action::Sample);
    r.begin_cycle(13, 5);
    for _ in 0..16 {
        assert_ne!(r.step(false), Action::Stop);
    }
    assert_eq!(r.step(false), Action::Sleep(200));
    assert_eq!(r.step(false), Action::Sleep(200));
    assert_eq!(r.step(true), Action::Stop);
    assert!(r.is_stopped());
    assert_eq!(r.step(false), Action::Stop);
    assert!(r.is_stopped());
}

#[test]
fn cancellation_between_symbols_stops() {
    let mut r = Runner::new(timing(), 0, Format::Hour12);
    assert_eq!(r.step(false), Action::Sample);
    r.begin_cycle(0, 0);
    assert_eq!(r.step(false), Action::Pulse(250, 750));
    assert_eq!(r.step(true), Action::Stop);
    assert_eq!(r.step(false), Action::Stop);
}
