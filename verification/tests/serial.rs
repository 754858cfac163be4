use displaylight::serial::Serial;
use displaylight::string_buf::StackString;

#[test]
fn write_accepts_what_fits() {
    let mut s = Serial::new();
    let data: Vec<u8> = (0..100).collect();
    // The outbound queue holds 63 bytes; the rest is refused, not dropped
    // silently.
    assert_eq!(s.write(&data), 63);
    assert_eq!(s.write(&[1, 2, 3]), 0);
}

#[test]
fn outbound_bytes_drain_in_order() {
    let mut s = Serial::new();
    assert_eq!(s.write(&[10, 20, 30]), 3);
    assert_eq!(s.pop_to_host(), Some(10));
    assert_eq!(s.pop_to_host(), Some(20));
    assert_eq!(s.pop_to_host(), Some(30));
    assert_eq!(s.pop_to_host(), None);
}

#[test]
fn inbound_bytes_are_read_in_order() {
    let mut s = Serial::new();
    assert!(!s.available());
    assert!(s.push_from_host(5).is_ok());
    assert!(s.push_from_host(6).is_ok());
    assert!(s.available());
    assert_eq!(s.read(), Some(5));
    assert_eq!(s.read(), Some(6));
    assert_eq!(s.read(), None);
}

#[test]
fn inbound_overrun_is_signaled_not_dropped() {
    let mut s = Serial::new();
    for i in 0..63u8 {
        assert!(s.push_from_host(i).is_ok());
    }
    // The queue is full: the transport must signal the overrun so the
    // caller stalls intake instead of losing protocol bytes.
    assert!(s.push_from_host(63).is_err());
    assert_eq!(s.read(), Some(0));
    assert!(s.push_from_host(63).is_ok());
}

#[test]
fn read_into_assembles_a_message_prefix() {
    let mut s = Serial::new();
    for i in 0..10u8 {
        s.push_from_host(i).unwrap();
    }
    let mut buffer = vec![0xEEu8; 6];
    assert_eq!(s.read_into(&mut buffer), 6);
    assert_eq!(buffer, vec![0, 1, 2, 3, 4, 5]);
    let mut rest = vec![0xEEu8; 64];
    assert_eq!(s.read_into(&mut rest), 4);
    assert_eq!(&rest[0..4], &[6, 7, 8, 9]);
    assert_eq!(rest[4], 0xEE);
}

#[test]
fn stack_string_accumulates_and_reports_overflow() {
    let mut s = StackString::default();
    assert_eq!(s.len(), 0);
    assert!(s.write_str("hello "));
    assert!(s.write_str("world"));
    assert_eq!(s.len(), 11);
    assert_eq!(s.data(), b"hello world");

    // Fill to the brim: the buffer keeps what fits and reports the
    // overflow.
    let long = "x".repeat(100);
    assert!(!s.write_str(&long));
    assert_eq!(s.len(), 64);
    assert_eq!(&s.data()[0..11], b"hello world");
}
