use cup_simulator::pulse::{Pulse, PulsePhase};

#[test]
fn pulse_alternates_short_on_long_off() {
    let mut p = Pulse::new();
    assert_eq!(p.next_phase(), PulsePhase { high: true, millis: 20 });
    assert_eq!(p.next_phase(), PulsePhase { high: false, millis: 240 });
    assert_eq!(p.next_phase(), PulsePhase { high: true, millis: 20 });
    assert_eq!(p.next_phase(), PulsePhase { high: false, millis: 240 });
}
