use displaylight::ringbuffer::RingBuffer;

#[test]
fn stateless_checks() {
    // 0 1 2 3
    let mut z = RingBuffer::<u8, 4>::new();

    // Indices the same == no data.
    z.set_read_pos(0);
    z.set_write_pos(0);

    // 0 1 2 3
    //R
    // W
    assert_eq!(z.read_available(), 0);
    assert_eq!(z.read_slice_mut().len(), 0);
    assert_eq!(z.write_available(), 3);
    assert_eq!(z.write_slice_mut().len(), 3);

    // Trivial case, read at 0, write at 2
    // Slots available for reading: 0 and 1.
    // Slots available for writing; 2 (not 3, because then W would advance to R)
    // 0 1 2 3
    //R
    //     W
    z.set_read_pos(0);
    z.set_write_pos(2);
    assert_eq!(z.read_available(), 2);
    assert_eq!(z.read_slice_mut().len(), 2);
    assert_eq!(z.write_available(), 1);
    assert_eq!(z.write_slice_mut().len(), 1);

    // Non trivial case, read at 2, write at 0
    // Slots available for reading: 2, 3
    // Slots available for writing: 0, (not 1 because then W would advance to R)
    // 0 1 2 3
    //    R
    // W
    z.set_read_pos(2);
    z.set_write_pos(0);
    assert_eq!(z.read_available(), 2);
    assert_eq!(z.read_slice_mut().len(), 2);
    assert_eq!(z.write_available(), 1);
    assert_eq!(z.write_slice_mut().len(), 1);

    // Index: 0 1 2 3
    //       R
    //              W
    // All writes populated.
    // We cannot write 3, because that makes read == write, meaning empty.
    // 0, 1, 2 ready for reading.
    // no slots for writing.
    z.set_read_pos(0);
    z.set_write_pos(3);
    assert_eq!(z.read_available(), 3);
    assert_eq!(z.read_slice_mut().len(), 3);
    assert_eq!(z.write_available(), 0);
    assert_eq!(z.write_slice_mut().len(), 0);

    // Index: 0 1 2 3
    //         R
    //              W
    // All writes populated.
    // 1, 2 for reading
    // 0 for writing.
    z.set_read_pos(1);
    z.set_write_pos(3);
    assert_eq!(z.read_available(), 2);
    assert_eq!(z.read_slice_mut().len(), 2);
    assert_eq!(z.write_available(), 1);

    z.set_read_pos(2);
    z.set_write_pos(2);
    // Index: 0 1 2 3
    //           R
    //            W
    // All writes populated.
    // 3, 0, 1 available for writing.
    assert_eq!(z.read_available(), 0);
    assert_eq!(z.read_slice_mut().len(), 0);
    assert_eq!(z.write_available(), 3);
    assert_eq!(z.write_slice_mut().len(), 2);
}

#[test]
fn ringbuffer_state_checks() {
    // Index: 0 1 2 3
    //       R
    //        W
    // Val:   0 0 0 0
    let mut z = RingBuffer::<u8, 4>::new();
    assert_eq!(z.read_available(), 0);
    assert_eq!(z.write_available(), 3);
    assert_eq!(z.array(), &[0, 0, 0, 0]);

    // Write things.
    let v = z.write_slice_mut();
    assert_eq!(v.len(), 3);
    v[0] = 1;
    v[1] = 2;
    assert_eq!(z.write_advance(2).is_ok(), true);

    // Index: 0 1 2 3
    //       R
    //            W
    // Val:   1 2 0 0
    assert_eq!(z.read_available(), 2);
    assert_eq!(z.write_available(), 1);
    assert_eq!(z.array(), &[1, 2, 0, 0]);
    assert_eq!(z.read_slice_mut(), &[1, 2]);

    // Write things.
    let v = z.write_slice_mut();
    assert_eq!(v.len(), 1);
    v[0] = 3;
    assert_eq!(z.write_advance(2).is_err(), true);
    assert_eq!(z.write_advance(1).is_ok(), true);

    // Index: 0 1 2 3
    //       R
    //              W
    // Val:   1 2 3 0
    assert_eq!(z.read_available(), 3);
    assert_eq!(z.write_available(), 0);
    assert_eq!(z.array(), &[1, 2, 3, 0]);
    assert_eq!(z.write_value(10).is_err(), true);

    // Read a value.
    let r = z.read_value();
    assert_eq!(r.is_some(), true);
    assert_eq!(r.unwrap(), 1);
    // Index: 0 1 2 3
    //         R
    //              W
    // Val:   1 2 3 0
    assert_eq!(z.read_available(), 2);
    assert_eq!(z.write_available(), 1);
    assert_eq!(z.array(), &[1, 2, 3, 0]);
    assert_eq!(z.read_slice_mut(), &[2, 3]);

    let r = z.read_value();
    assert_eq!(r.is_some(), true);
    assert_eq!(r.unwrap(), 2);
    // Index: 0 1 2 3
    //           R
    //              W
    // Val:   1 2 3 0
    assert_eq!(z.read_available(), 1);
    assert_eq!(z.write_available(), 2);
    assert_eq!(z.array(), &[1, 2, 3, 0]);
    assert_eq!(z.read_slice_mut(), &[3]);

    // Add a value.
    let r = z.write_value(4);
    assert_eq!(r.is_ok(), true);
    // Index: 0 1 2 3
    //           R
    //        W
    // Val:   1 2 3 4
    assert_eq!(z.read_available(), 2);
    assert_eq!(z.write_available(), 1);
    assert_eq!(z.array(), &[1, 2, 3, 4]);

    assert_eq!(z.read_slice_mut(), &[3, 4]);
    assert_eq!(z.read_advance(2).is_ok(), true);
}

#[test]
fn read_and_write_positions_track_indices() {
    let mut z = RingBuffer::<u8, 4>::new();
    assert_eq!(z.read_pos(), 0);
    assert_eq!(z.write_pos(), 0);
    z.write_value(9).unwrap();
    assert_eq!(z.write_pos(), 1);
    z.read_value().unwrap();
    assert_eq!(z.read_pos(), 1);
}

#[test]
fn read_advance_past_available_is_refused() {
    let mut z = RingBuffer::<u8, 4>::new();
    z.write_value(1).unwrap();
    assert!(z.read_advance(2).is_err());
    assert_eq!(z.read_available(), 1);
    assert!(z.read_advance(1).is_ok());
    assert_eq!(z.read_available(), 0);
}
