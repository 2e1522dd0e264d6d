use cbuf::{CBuf, CBufControl, CBufOwned};

#[test]
fn basic_owned() {
    let mut cbuf = CBufOwned::new(vec![0u8, 0u8]);

    assert!(cbuf.len() == 2);
    assert!(cbuf.is_empty());
    assert!(!cbuf.is_full());

    cbuf.put(3);
    cbuf.put(4);
    cbuf.put(42); // will have no effect
    assert!(!cbuf.is_empty());
    assert!(cbuf.is_full());

    assert_eq!(cbuf.peek().unwrap(), &3);
    assert_eq!(cbuf.get().unwrap(), 3);
    assert_eq!(cbuf.get().unwrap(), 4);
    assert!(cbuf.is_empty());

    assert!(cbuf.get().is_none());
    cbuf.put(42);
    assert_eq!(cbuf.get().unwrap(), 42);
}

#[test]
fn owned_wrap_laps() {
    let mut cbuf = CBufOwned::new(vec![0u32; 4]);
    let mut next_put: u32 = 0;
    let mut next_get: u32 = 0;
    for _ in 0..4 {
        while !cbuf.is_full() {
            cbuf.put(next_put);
            next_put += 1;
        }
        while !cbuf.is_empty() {
            assert_eq!(cbuf.get(), Some(next_get));
            next_get += 1;
        }
        cbuf.put(next_put);
        next_put += 1;
        assert_eq!(cbuf.get(), Some(next_get));
        next_get += 1;
    }
    assert!(next_get >= 3 * 4);
}

#[test]
fn round_trip_on_empty() {
    let buf = &mut [0u32; 5];
    let mut cbuf = CBuf::new(buf);
    cbuf.put(7);
    assert_eq!(cbuf.get(), Some(7));
    assert!(cbuf.is_empty());

    // also from a non-pristine empty state
    cbuf.put(1);
    cbuf.put(2);
    cbuf.get();
    cbuf.get();
    assert!(cbuf.is_empty());
    cbuf.put(9);
    assert_eq!(cbuf.get(), Some(9));
}

#[test]
fn scenario_two_slots() {
    let buf = &mut [0u8, 0u8];
    let mut cbuf = CBuf::new(buf);
    assert!(cbuf.is_empty());
    cbuf.put(3);
    cbuf.put(4);
    assert!(cbuf.is_full());
    cbuf.put(99); // no-op: the buffer is full
    assert!(cbuf.is_full());
    assert_eq!(cbuf.get(), Some(3));
    assert_eq!(cbuf.get(), Some(4));
    assert!(cbuf.is_empty());
    assert_eq!(cbuf.get(), None);
    cbuf.put(42);
    assert_eq!(cbuf.get(), Some(42));
}

#[test]
fn fifo_order() {
    let buf = &mut [0u16; 8];
    let mut cbuf = CBuf::new(buf);
    for v in [10u16, 20, 30, 40, 50] {
        cbuf.put(v);
    }
    for v in [10u16, 20, 30, 40, 50] {
        assert_eq!(cbuf.get(), Some(v));
    }
    assert!(cbuf.is_empty());
}

#[test]
fn holds_full_capacity() {
    let buf = &mut [0u8; 4];
    let mut cbuf = CBuf::new(buf);
    for v in 1..=4u8 {
        assert!(!cbuf.is_full());
        cbuf.put(v);
    }
    // all four slots are usable, not three
    assert!(cbuf.is_full());
    for v in 1..=4u8 {
        assert_eq!(cbuf.get(), Some(v));
    }
    assert!(cbuf.is_empty());
}

#[test]
fn saturation_is_noop() {
    let buf = &mut [0u8; 3];
    let mut cbuf = CBuf::new(buf);
    cbuf.put(1);
    cbuf.put(2);
    cbuf.put(3);
    assert!(cbuf.is_full());
    for extra in 100..110u8 {
        cbuf.put(extra);
        assert!(cbuf.is_full());
        assert!(!cbuf.is_empty());
    }
    // the dropped writes changed neither the contents nor their order
    assert_eq!(cbuf.get(), Some(1));
    assert_eq!(cbuf.get(), Some(2));
    assert_eq!(cbuf.get(), Some(3));
    assert!(cbuf.is_empty());
}

#[test]
fn empty_reads_are_noops() {
    let buf = &mut [0u8; 3];
    let mut cbuf = CBuf::new(buf);
    for _ in 0..10 {
        assert!(cbuf.get().is_none());
        assert!(cbuf.peek().is_none());
        assert!(cbuf.is_empty());
        assert!(!cbuf.is_full());
    }
    cbuf.put(5);
    assert_eq!(cbuf.get(), Some(5));
    for _ in 0..10 {
        assert!(cbuf.get().is_none());
        assert!(cbuf.peek().is_none());
        assert!(cbuf.is_empty());
    }
}

#[test]
fn peek_does_not_advance() {
    let buf = &mut [0u8; 3];
    let mut cbuf = CBuf::new(buf);
    cbuf.put(8);
    cbuf.put(9);
    for _ in 0..10 {
        assert_eq!(cbuf.peek(), Some(&8));
        assert!(!cbuf.is_empty());
        assert!(!cbuf.is_full());
    }
    assert_eq!(cbuf.get(), Some(8));
    for _ in 0..10 {
        assert_eq!(cbuf.peek(), Some(&9));
    }
    assert_eq!(cbuf.get(), Some(9));
}

#[test]
fn wrap_laps_keep_order() {
    let buf = &mut [0u32; 3];
    let mut cbuf = CBuf::new(buf);
    // drive the indices through many laps of a 3-slot store
    let mut next_put: u32 = 0;
    let mut next_get: u32 = 0;
    for _ in 0..7 {
        // fill completely, then drain completely: one full lap each
        while !cbuf.is_full() {
            cbuf.put(next_put);
            next_put += 1;
        }
        assert!(cbuf.is_full());
        while !cbuf.is_empty() {
            assert_eq!(cbuf.get(), Some(next_get));
            next_get += 1;
        }
        assert!(cbuf.is_empty());
        // stagger by one so successive laps start at every offset
        cbuf.put(next_put);
        next_put += 1;
        assert_eq!(cbuf.get(), Some(next_get));
        next_get += 1;
    }
    assert_eq!(next_put, next_get);
    assert!(next_put >= 3 * 3);
}

#[test]
fn counts_track_puts_minus_gets() {
    let cap = 4usize;
    let buf = &mut [0u8; 4];
    let mut cbuf = CBuf::new(buf);
    let mut outstanding = 0usize;
    let mut next_put: u8 = 0;
    // an arbitrary interleaving of length 2 * cap
    let steps = [true, true, false, true, true, false, true, true];
    assert_eq!(steps.len(), 2 * cap);
    for is_put in steps {
        if is_put {
            if outstanding < cap {
                cbuf.put(next_put);
                next_put += 1;
                outstanding += 1;
            }
        } else {
            assert!(cbuf.get().is_some());
            outstanding -= 1;
        }
        assert_eq!(cbuf.is_empty(), outstanding == 0);
        assert_eq!(cbuf.is_full(), outstanding == cap);
    }
}

#[test]
fn single_slot() {
    let buf = &mut [0u8];
    let mut cbuf = CBuf::new(buf);
    assert!(cbuf.is_empty());
    for v in 0..5u8 {
        cbuf.put(v);
        assert!(cbuf.is_full());
        cbuf.put(100); // dropped
        assert_eq!(cbuf.peek(), Some(&v));
        assert_eq!(cbuf.get(), Some(v));
        assert!(cbuf.is_empty());
    }
}

#[test]
fn unchecked_variants() {
    let buf = &mut [0u8; 3];
    let mut cbuf = CBuf::new(buf);
    for v in [11u8, 22, 33] {
        assert!(!cbuf.is_full());
        cbuf.put_unchecked(v);
    }
    assert!(cbuf.is_full());
    assert_eq!(cbuf.peek_unchecked(), &11);
    assert_eq!(cbuf.get_unchecked(), 11);
    assert_eq!(cbuf.get_unchecked(), 22);
    assert_eq!(cbuf.get_unchecked(), 33);
    assert!(cbuf.is_empty());
}

#[test]
fn controller_unchecked_variants() {
    let buf: &mut [u64] = &mut [0u64; 2];
    let mut ctl = CBufControl::<u64>::new();
    ctl.put_unchecked(buf, 5);
    ctl.put_unchecked(buf, 6);
    assert!(ctl.is_full());
    assert_eq!(ctl.peek_unchecked(buf), &5);
    assert_eq!(ctl.get_unchecked(buf), 5);
    assert_eq!(ctl.get_unchecked(buf), 6);
    assert!(ctl.is_empty());
}
