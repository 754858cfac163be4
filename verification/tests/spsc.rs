use displaylight::spsc::SpScRingbuffer;

#[test]
fn spsc_state_checks() {
    let mut z = SpScRingbuffer::<u8, 4>::new();
    assert_eq!(z.is_empty(), true);
    assert_eq!(z.is_full(), false);

    assert_eq!(z.write_value(1).is_ok(), true);

    // One value in there now.
    assert_eq!(z.is_empty(), false);
    assert_eq!(z.is_full(), false);

    // read the one value
    let v = z.read_value();
    assert_eq!(v.is_some(), true);
    assert_eq!(v.unwrap(), 1);
    assert_eq!(z.is_empty(), true);
    assert_eq!(z.is_full(), false);

    assert_eq!(z.write_value(2).is_ok(), true);
    assert_eq!(z.write_value(3).is_ok(), true);
    assert_eq!(z.write_value(4).is_ok(), true);
    assert_eq!(z.write_value(5).is_ok(), false); // would make read==write

    assert_eq!(z.is_full(), true);
    assert_eq!(z.peek_value().is_some(), true);
    assert_eq!(*(z.peek_value().unwrap()), 2);
    assert_eq!(z.read_value().expect("2"), 2);
    assert_eq!(z.read_value().expect("3"), 3);
    assert_eq!(z.read_value().expect("4"), 4);

    assert_eq!(z.is_empty(), true);
    assert_eq!(z.is_full(), false);

    assert_eq!(z.read_value().is_none(), true);
    assert_eq!(z.write_value(1).is_ok(), true);
    assert_eq!(z.read_value().expect("1"), 1);

    assert_eq!(z.write_value(1).is_ok(), true);
    assert_eq!(z.write_value(2).is_ok(), true);
    assert_eq!(z.write_value(3).is_ok(), true);
    assert_eq!(z.write_value(4).is_err(), true);
    assert_eq!(z.read_value().expect("1"), 1);
    assert_eq!(z.read_value().expect("2"), 2);
    assert_eq!(z.read_value().expect("3"), 3);
    assert_eq!(z.read_value().is_none(), true);
}

#[test]
fn values_come_out_in_fifo_order() {
    let mut q = SpScRingbuffer::<u32, 8>::new();
    for v in 10..17u32 {
        assert!(q.write_value(v).is_ok());
    }
    for v in 10..17u32 {
        assert_eq!(q.read_value(), Some(v));
    }
    assert!(q.read_value().is_none());
}

#[test]
fn available_counts_always_sum_to_capacity() {
    let mut q = SpScRingbuffer::<u8, 5>::new();
    assert_eq!(q.read_available() + q.write_available(), 4);
    q.write_value(1).unwrap();
    assert_eq!(q.read_available() + q.write_available(), 4);
    q.write_value(2).unwrap();
    q.read_value().unwrap();
    assert_eq!(q.read_available() + q.write_available(), 4);
    // Wrap the indices around.
    for v in 0..4u8 {
        q.write_value(v).unwrap();
        q.read_value().unwrap();
    }
    assert_eq!(q.read_available() + q.write_available(), 4);
}

#[test]
fn write_fails_exactly_when_holding_capacity() {
    let mut q = SpScRingbuffer::<u8, 4>::new();
    assert!(q.write_value(1).is_ok());
    assert!(q.write_value(2).is_ok());
    assert!(q.write_value(3).is_ok());
    // Holds N - 1 elements now; the next write is an overrun and stores
    // nothing.
    assert!(q.write_value(4).is_err());
    assert_eq!(q.read_available(), 3);
    assert_eq!(q.read_value(), Some(1));
    assert!(q.write_value(4).is_ok());
}

#[test]
fn peek_does_not_consume() {
    let mut q = SpScRingbuffer::<u8, 4>::new();
    assert!(q.peek_value().is_none());
    q.write_value(7).unwrap();
    assert_eq!(*q.peek_value().unwrap(), 7);
    assert_eq!(*q.peek_value().unwrap(), 7);
    assert_eq!(q.read_value(), Some(7));
}

#[test]
fn wrapped_states_via_position_hooks() {
    let mut q = SpScRingbuffer::<u8, 4>::new();
    q.set_read_pos(3);
    q.set_write_pos(3);
    assert!(q.is_empty());
    assert!(q.write_value(42).is_ok());
    assert!(!q.is_empty());
    assert_eq!(q.read_value(), Some(42));
}
