use cup_simulator::counter::{Counter, COUNTER_MAX};
use cup_simulator::writer::FourDigitWriter;

#[test]
fn counter_starts_at_zero() {
    assert_eq!(Counter::new().value(), 0);
}

#[test]
fn counter_wraps_after_max() {
    let mut c = Counter::new();
    for _ in 0..9997 {
        c.increment();
    }
    let mut seen = Vec::new();
    for _ in 0..5 {
        seen.push(c.value());
        c.increment();
    }
    assert_eq!(seen, vec![9997, 9998, 9999, 0, 1]);
    assert_eq!(COUNTER_MAX, 9999);
}

#[test]
fn counter_full_cycle_returns_to_start() {
    let mut c = Counter::new();
    for k in 0u32..25_000 {
        assert_eq!(c.value() as u32, k % 10_000);
        c.increment();
    }
}

#[test]
fn tick_renders_then_advances() {
    let mut buf = [0u8; 4];
    let mut w = FourDigitWriter::new(&mut buf[..]);
    let mut c = Counter::new();
    assert_eq!(c.tick(&mut w), "0000");
    assert_eq!(c.tick(&mut w), "0001");
    assert_eq!(c.value(), 2);
    for _ in 2..9999 {
        c.increment();
    }
    assert_eq!(c.tick(&mut w), "9999");
    assert_eq!(c.tick(&mut w), "0000");
}
