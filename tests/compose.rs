use cup_simulator::compose::{Composer, Op, Segment, STEPS};

#[derive(Debug, Clone, PartialEq, Eq)]
struct BusError(usize);

/// Runs a composition of `text`; the operation at index `fail_at` (if any)
/// fails. Returns the operations performed and the composer's answer.
fn run(text: &str, fail_at: Option<usize>) -> (Vec<Op>, Result<(), BusError>) {
    let mut c = Composer::new(text);
    let mut done = Vec::new();
    loop {
        let op = match c.pending() {
            Some(op) => op,
            None => panic!("composition ended without an answer"),
        };
        let k = done.len();
        done.push(op);
        let outcome = if fail_at == Some(k) { Err(BusError(k)) } else { Ok(()) };
        if let Some(r) = c.complete(outcome) {
            assert!(c.pending().is_none());
            return (done, r);
        }
    }
}

#[test]
fn routing_of_1234() {
    let (ops, r) = run("1234", None);
    assert_eq!(r, Ok(()));
    assert_eq!(
        ops,
        vec![
            Op::SetCharacter { segment: Segment::A, column: 0, ch: '1' },
            Op::SetCharacter { segment: Segment::A, column: 5, ch: '2' },
            Op::SetCharacter { segment: Segment::B, column: 0, ch: '3' },
            Op::SetCharacter { segment: Segment::B, column: 5, ch: '4' },
            Op::Show { segment: Segment::B },
            Op::Show { segment: Segment::A },
        ]
    );
}

#[test]
fn routing_of_formatted_zero() {
    let (ops, r) = run("0042", None);
    assert_eq!(r, Ok(()));
    assert_eq!(ops.len(), STEPS);
    assert_eq!(ops[2], Op::SetCharacter { segment: Segment::B, column: 0, ch: '4' });
    assert_eq!(ops[3], Op::SetCharacter { segment: Segment::B, column: 5, ch: '2' });
}

#[test]
fn first_failure_stops_the_composition() {
    for k in 0..STEPS {
        let (ops, r) = run("1234", Some(k));
        assert_eq!(ops.len(), k + 1);
        assert_eq!(r, Err(BusError(k)));
    }
}

#[test]
fn failed_commit_reports_its_error() {
    let (ops, r) = run("9876", Some(4));
    assert_eq!(ops.last(), Some(&Op::Show { segment: Segment::B }));
    assert_eq!(r, Err(BusError(4)));
}

#[test]
fn non_ascii_text_is_routed_by_character() {
    let (ops, r) = run("ä1é2", None);
    assert_eq!(r, Ok(()));
    assert_eq!(ops[0], Op::SetCharacter { segment: Segment::A, column: 0, ch: 'ä' });
    assert_eq!(ops[2], Op::SetCharacter { segment: Segment::B, column: 0, ch: 'é' });
}
