use shooter::time::Accumulator;

#[test]
fn from_nanos_starts_empty() {
    let a = Accumulator::from_nanos(250);
    assert_eq!(a.accumulated_ns(), 0);
    assert_eq!(a.interval_ns(), 250);
}

#[test]
fn from_millis_and_secs_scale_the_interval() {
    assert_eq!(Accumulator::from_millis(100).interval_ns(), 100_000_000);
    assert_eq!(Accumulator::from_secs(2).interval_ns(), 2_000_000_000);
    assert_eq!(Accumulator::from_secs(u32::MAX).interval_ns(), 1_000_000_000 * u32::MAX as u64);
}

#[test]
fn ready_accumulators_fire_at_once() {
    let mut a = Accumulator::ready_from_millis(100);
    assert_eq!(a.accumulated_ns(), 100_000_000);
    assert_eq!(a.advance(0), 0..1);
    assert_eq!(a.accumulated_ns(), 0);
    let mut b = Accumulator::ready_from_secs(1);
    assert_eq!(b.advance(1), 0..1);
    assert_eq!(b.accumulated_ns(), 1);
    let mut c = Accumulator::ready_from_nanos(7);
    assert_eq!(c.advance(7), 0..2);
    assert_eq!(c.accumulated_ns(), 0);
}

#[test]
fn advance_keeps_the_remainder() {
    let mut a = Accumulator::from_nanos(10);
    assert_eq!(a.advance(3), 0..0);
    assert_eq!(a.accumulated_ns(), 3);
    assert_eq!(a.advance(25), 0..2);
    assert_eq!(a.accumulated_ns(), 8);
    assert_eq!(a.advance(2), 0..1);
    assert_eq!(a.accumulated_ns(), 0);
}
