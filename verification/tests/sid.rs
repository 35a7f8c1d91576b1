use cnano_rs::sid::{CircBuf, Sid, SID_COUNT, SID_MAX_U8};

#[test]
fn test_max() {
    assert_eq!(Sid::max(), Sid::new(31));
}

#[test]
fn test_next() {
    let mut sid = Sid::new(0);
    sid.next();
    assert_eq!(sid, Sid::new(1));
    sid.next();
    assert_eq!(sid, Sid::new(2));
    sid.v = 31;
    sid.next();
    assert_eq!(sid, Sid::new(0));
}

#[test]
fn test_sid_iter() {
    let sid = Sid::new(3);
    let mut iter = sid.iter(Sid::new(6));
    assert_eq!(iter.next(), Some(Sid::new(3)));
    assert_eq!(iter.next(), Some(Sid::new(4)));
    assert_eq!(iter.next(), Some(Sid::new(5)));
    assert_eq!(iter.next(), None);
    let sid = Sid::new(30);
    let mut iter = sid.iter(Sid::new(1));
    assert_eq!(iter.next(), Some(Sid::new(30)));
    assert_eq!(iter.next(), Some(Sid::new(31)));
    assert_eq!(iter.next(), Some(Sid::new(0)));
    assert_eq!(iter.next(), None);

    let sid = Sid::new(17);
    let mut iter = sid.iter(Sid::new(17));
    let mut count = 0;
    while let Some(_) = iter.next() {
        count += 1;
    }
    assert_eq!(count, SID_MAX_U8 as usize + 1);

    let sid = Sid::new(17);
    let mut iter = sid.iter(Sid::new(18));
    let mut count = 0;
    while let Some(_) = iter.next() {
        count += 1;
    }
    assert_eq!(count, 1);
}

#[test]
fn test_circ_buf() {
    let mut buf = CircBuf::new();
    assert!(buf.is_empty());
    buf.insert(Sid::new(0), 1);
    assert!(!buf.is_empty());
    assert_eq!(buf.take(Sid::new(0)), Some(1));
    assert!(buf.is_empty());
    buf.insert(Sid::new(0), 1);
    buf.insert(Sid::new(1), 2);
    buf.insert(Sid::new(2), 3);
    assert_eq!(buf.get(Sid::new(0)), Some(1));
    assert_eq!(buf.get(Sid::new(1)), Some(2));
    assert_eq!(buf.get(Sid::new(2)), Some(3));
    assert_eq!(buf.take(Sid::new(24)), None);
    assert_eq!(buf.take(Sid::new(1)), Some(2));
    assert_eq!(buf.take(Sid::new(1)), None);
    assert_eq!(buf.take(Sid::new(0)), Some(1));
    assert_eq!(buf.take(Sid::new(0)), None);
    assert_eq!(buf.take(Sid::new(2)), Some(3));
    assert_eq!(buf.take(Sid::new(2)), None);
    assert!(buf.is_empty());
}

#[test]
fn ids_cycle_after_all_of_them() {
    let start = Sid::new(5);
    let mut sid = start;
    for n in 1..=SID_COUNT {
        sid.next();
        assert_eq!(sid == start, n == SID_COUNT);
    }
}

#[test]
fn full_circle_visits_each_id_once() {
    let mut seen = [0u8; 32];
    let mut iter = Sid::new(9).iter(Sid::new(9));
    while let Some(sid) = iter.next() {
        seen[sid.as_usize()] += 1;
    }
    assert_eq!(seen, [1u8; 32]);
}

#[test]
fn ids_convert() {
    assert_eq!(Sid::from_u32_lsb(0x1207), Sid::new(7));
    assert_eq!(Sid::new(30).as_u16(), 30);
    assert_eq!(Sid::default(), Sid::new(0));
    assert!(Sid::new(3) < Sid::new(4));
    assert!(!(Sid::new(4) < Sid::new(4)));
}

#[test]
fn inserting_twice_keeps_the_last_value() {
    let mut buf = CircBuf::default();
    buf.insert(Sid::new(31), 1);
    buf.insert(Sid::new(31), 2);
    assert_eq!(buf.get(Sid::new(31)), Some(2));
    buf.remove(Sid::new(31));
    assert!(buf.is_empty());
    buf.remove(Sid::new(31));
    assert!(buf.is_empty());
}
