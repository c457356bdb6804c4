use lumina::interpolation::{interpolate, InterpolationBuffer, Sample};
use lumina::prediction::Position;
use lumina::interest::refresh_due;
use lumina::tick::{smooth_signed, smooth_unsigned, LinkEstimate, StepTimer, TickClock};

#[test]
fn ticks_advance_without_a_gap() {
    let mut c = TickClock::new(41);
    assert_eq!(c.current_tick(), 41);
    c.advance();
    assert_eq!(c.current_tick(), 42);
    c.advance();
    assert_eq!(c.current_tick(), 43);
}

#[test]
fn drift_beyond_the_bound_rebases_the_clock() {
    let mut c = TickClock::new(100);
    assert!(!c.needs_resync(105, 5));
    assert!(!c.needs_resync(95, 5));
    assert!(c.needs_resync(106, 5));
    assert!(c.needs_resync(94, 5));
    assert!(!c.resync(105, 5));
    assert_eq!(c.current_tick(), 100);
    assert!(c.resync(94, 5));
    assert_eq!(c.current_tick(), 94);
    assert!(c.resync(u64::MAX, 5));
    assert_eq!(c.current_tick(), u64::MAX);
}

#[test]
fn smoothing_moves_an_eighth_of_the_way() {
    assert_eq!(smooth_unsigned(100, 180), 110);
    assert_eq!(smooth_unsigned(180, 100), 170);
    assert_eq!(smooth_unsigned(100, 107), 100);
    assert_eq!(smooth_unsigned(0, u64::MAX), u64::MAX / 8);
    assert_eq!(smooth_unsigned(u64::MAX, 0), u64::MAX - u64::MAX / 8);
    assert_eq!(smooth_signed(-100, -180), -110);
    assert_eq!(smooth_signed(-100, 60), -80);
    assert_eq!(smooth_signed(0, -7), 0);
    assert_eq!(smooth_signed(i64::MIN, i64::MAX), i64::MIN + (u64::MAX / 8) as i64);
    assert_eq!(smooth_signed(i64::MAX, i64::MIN), i64::MAX - (u64::MAX / 8) as i64);
}

#[test]
fn first_sample_is_taken_as_it_is() {
    let mut e = LinkEstimate::new();
    assert!(!e.primed);
    e.record_sample(8000, -400);
    assert_eq!(e, LinkEstimate { round_trip: 8000, offset: -400, primed: true });
    e.record_sample(16000, 400);
    assert_eq!(e, LinkEstimate { round_trip: 9000, offset: -300, primed: true });
    assert_eq!(e.estimate_offset(), -300);
}

#[test]
fn interpolation_is_linear_between_snapshots() {
    assert_eq!(interpolate(10, 0, 20, 100, 15), 50);
    assert_eq!(interpolate(10, 0, 20, 100, 13), 30);
    assert_eq!(interpolate(10, 0, 20, -100, 13), -30);
    assert_eq!(interpolate(10, 5, 13, 6, 12), 5);
    assert_eq!(interpolate(10, 5, 13, 4, 12), 5);
    assert_eq!(interpolate(0, i64::MIN, 2, i64::MAX, 1), -1);
    assert_eq!(interpolate(0, i64::MAX, 2, i64::MIN, 1), 0);
}

#[test]
fn interpolation_never_extrapolates() {
    assert_eq!(interpolate(10, 3, 20, 9, 5), 3);
    assert_eq!(interpolate(10, 3, 20, 9, 10), 3);
    assert_eq!(interpolate(10, 3, 20, 9, 20), 9);
    assert_eq!(interpolate(10, 3, 20, 9, 99), 9);
}

#[test]
fn single_snapshot_is_held() {
    let mut b = InterpolationBuffer::new();
    assert_eq!(b.sample(100, 2), None);
    b.push(Sample { tick: 10, state: Position { x: 4, y: 5 } });
    assert_eq!(b.sample(100, 2), Some(Position { x: 4, y: 5 }));
    assert_eq!(b.sample(0, 2), Some(Position { x: 4, y: 5 }));
}

#[test]
fn buffer_renders_behind_by_the_delay() {
    let mut b = InterpolationBuffer::new();
    b.push(Sample { tick: 10, state: Position { x: 0, y: 100 } });
    b.push(Sample { tick: 20, state: Position { x: 10, y: 0 } });
    assert_eq!(b.sample(17, 2), Some(Position { x: 5, y: 50 }));
    assert_eq!(b.sample(22, 2), Some(Position { x: 10, y: 0 }));
    assert_eq!(b.sample(1, 2), Some(Position { x: 0, y: 100 }));
    b.push(Sample { tick: 15, state: Position { x: 99, y: 99 } });
    assert_eq!(b.older, Some(Sample { tick: 10, state: Position { x: 0, y: 100 } }));
    b.push(Sample { tick: 30, state: Position { x: 20, y: 0 } });
    assert_eq!(b.older, Some(Sample { tick: 20, state: Position { x: 10, y: 0 } }));
    assert_eq!(b.sample(27, 2), Some(Position { x: 15, y: 0 }));
}

#[test]
fn elapsed_time_becomes_whole_steps() {
    let mut t = StepTimer::new(16_000);
    assert_eq!(t.feed(10_000), 0);
    assert_eq!(t.carried, 10_000);
    assert_eq!(t.feed(10_000), 1);
    assert_eq!(t.carried, 4_000);
    assert_eq!(t.feed(44_000), 3);
    assert_eq!(t.carried, 0);
    assert_eq!(t.feed(0), 0);
    let mut one = StepTimer::new(1);
    assert_eq!(one.feed(u64::MAX), u64::MAX);
    assert_eq!(one.carried, 0);
    let mut wide = StepTimer::new(u64::MAX);
    assert_eq!(wide.feed(u64::MAX - 1), 0);
    assert_eq!(wide.feed(u64::MAX), 1);
    assert_eq!(wide.carried, u64::MAX - 1);
}

#[test]
fn interest_is_refreshed_once_per_period() {
    assert!(refresh_due(None, 0, 10));
    assert!(!refresh_due(Some(100), 109, 10));
    assert!(refresh_due(Some(100), 110, 10));
    assert!(!refresh_due(Some(100), 99, 10));
    assert!(refresh_due(Some(100), 100, 0));
}
