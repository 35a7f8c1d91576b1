use cnano_rs::mouse_move::MouseMove;

#[test]
fn mouse_move_test_ser_de() {
    for (dx, dy) in &[
        (0, 0),
        (1, 0),
        (0, 1),
        (1, 1),
        (-1, 0),
        (0, -1),
        (-1, -1),
        (i8::MAX as i16, i8::MAX as i16),
        (i8::MIN as i16, i8::MIN as i16),
        (i16::MAX, i16::MAX),
        (i16::MIN, i16::MIN),
    ] {
        let m = MouseMove::new(*dx, *dy);
        let v = m.to_u32();
        let m2 = MouseMove::from_u32(v);
        assert_eq!(m, m2);
    }
}

#[test]
fn word_of_a_move() {
    assert_eq!(MouseMove::new(1, -2).to_u32(), 0x0001_fffe);
    assert_eq!(MouseMove::from_u32(0x8000_7fff), MouseMove::new(i16::MIN, i16::MAX));
    for v in [0u32, 1, 0xffff, 0x10000, 0xdead_beef, u32::MAX] {
        assert_eq!(MouseMove::from_u32(v).to_u32(), v);
    }
}
