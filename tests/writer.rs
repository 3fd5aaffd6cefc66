use cup_simulator::writer::FourDigitWriter;

fn formatted(v: u16) -> String {
    let mut buf = [0u8; 4];
    let mut w = FourDigitWriter::new(&mut buf[..]);
    w.format(v).to_string()
}

#[test]
fn format_pads_to_four_digits() {
    assert_eq!(formatted(0), "0000");
    assert_eq!(formatted(7), "0007");
    assert_eq!(formatted(42), "0042");
    assert_eq!(formatted(305), "0305");
    assert_eq!(formatted(1234), "1234");
    assert_eq!(formatted(9999), "9999");
}

#[test]
fn format_every_value_in_range() {
    for v in 0u16..=9999 {
        let s = formatted(v);
        assert_eq!(s.len(), 4);
        assert!(s.bytes().all(|b| b.is_ascii_digit()));
        assert_eq!(s, format!("{:04}", v));
    }
}

#[test]
fn format_round_trips() {
    for v in 0u16..=9999 {
        assert_eq!(formatted(v).parse::<u16>().unwrap(), v);
    }
}

#[test]
fn format_twice_gives_same_text() {
    let mut buf = [0u8; 4];
    let mut w = FourDigitWriter::new(&mut buf[..]);
    let first = w.format(815).to_string();
    let second = w.format(815).to_string();
    assert_eq!(first, "0815");
    assert_eq!(first, second);
    assert_eq!(w.as_str(), "0815");
}

#[test]
fn format_overwrites_previous_contents() {
    let mut buf = [0u8; 4];
    let mut w = FourDigitWriter::new(&mut buf[..]);
    assert_eq!(w.format(9876), "9876");
    assert_eq!(w.format(3), "0003");
    assert_eq!(w.as_str(), "0003");
}

#[test]
fn format_into_wider_buffer() {
    let mut buf = [b'x'; 6];
    let mut w = FourDigitWriter::new(&mut buf[..]);
    assert_eq!(w.capacity(), 6);
    assert_eq!(w.format(65535), "065535");
    assert_eq!(w.format(12), "000012");
}

#[test]
fn buffer_holds_the_digits_afterwards() {
    let mut buf = [0u8; 4];
    {
        let mut w = FourDigitWriter::new(&mut buf[..]);
        w.format(58);
    }
    assert_eq!(&buf, b"0058");
}

#[test]
fn write_str_right_aligns_and_pads() {
    let mut buf = [0u8; 4];
    let mut w = FourDigitWriter::new(&mut buf[..]);
    assert!(w.write_str("42").is_ok());
    assert_eq!(w.as_str(), "0042");
    assert!(w.write_str("").is_ok());
    assert_eq!(w.as_str(), "0000");
    assert!(w.write_str("1234").is_ok());
    assert_eq!(w.as_str(), "1234");
}

#[test]
fn capacity_is_buffer_length() {
    let mut buf = [0u8; 4];
    let w = FourDigitWriter::new(&mut buf[..]);
    assert_eq!(w.capacity(), 4);
}

#[test]
fn as_str_shows_initial_contents() {
    let mut buf = *b"ab12";
    let w = FourDigitWriter::new(&mut buf[..]);
    assert_eq!(w.as_str(), "ab12");
}
