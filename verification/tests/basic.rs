use cbuf::{CBuf, CBufControl};

#[test]
fn basic_ctl() {
    let buf = &mut [0u8, 2];
    let mut cbuf = CBufControl::<u8>::new();

    assert!(cbuf.is_empty());
    assert!(!cbuf.is_full());

    cbuf.put(buf, 3);
    cbuf.put(buf, 4);
    cbuf.put(buf, 42); // will have no effect
    cbuf.put(buf, 42); // will have no effect
    assert!(!cbuf.is_empty());
    assert!(cbuf.is_full());

    assert_eq!(cbuf.peek(buf).unwrap(), &3);
    cbuf.peek(buf).unwrap();
    assert!(!cbuf.is_empty());
    assert!(cbuf.is_full());

    assert_eq!(cbuf.get(buf).unwrap(), 3);
    assert_eq!(cbuf.get(buf).unwrap(), 4);
    assert!(cbuf.is_empty());
    assert!(!cbuf.is_full());

    assert!(cbuf.get(buf).is_none());
    assert!(cbuf.get(buf).is_none());
    cbuf.put(buf, 42);
    assert_eq!(cbuf.get(buf).unwrap(), 42);
}

#[test]
fn basic_cbuf() {
    let buf = &mut [0u8, 0u8];
    let mut cbuf = CBuf::new(buf);

    assert!(cbuf.len() == 2);
    assert!(cbuf.is_empty());
    assert!(!cbuf.is_full());

    cbuf.put(3);
    cbuf.put(4);
    cbuf.put(42); // will have no effect
    cbuf.put(42); // will have no effect
    assert!(!cbuf.is_empty());
    assert!(cbuf.is_full());

    assert_eq!(cbuf.peek().unwrap(), &3);
    cbuf.peek().unwrap();
    assert!(!cbuf.is_empty());
    assert!(cbuf.is_full());

    assert_eq!(cbuf.get().unwrap(), 3);
    assert_eq!(cbuf.get().unwrap(), 4);
    assert!(cbuf.is_empty());
    assert!(!cbuf.is_full());

    assert!(cbuf.get().is_none());
    assert!(cbuf.get().is_none());
    cbuf.put(42);
    assert_eq!(cbuf.get().unwrap(), 42);
}

#[test]
fn patterns() {
    let mut buf = [0u8, 7];
    let mut cbuf = CBufControl::<u8>::new();

    let mut cur_len = 0;
    let mut put_val = 0;
    let mut get_val = 0;

    for pattern in 0..256 {
        if cur_len == 0 {
            assert!(cbuf.is_empty());
        }
        if cur_len == buf.len() {
            assert!(cbuf.is_full());
        }

        for bit_i in 0..8 {
            match pattern & (1 << bit_i) == 0 {
                true => {
                    if cbuf.is_empty() {
                        assert!(cbuf.peek(&buf).is_none());
                        assert!(cbuf.get(&buf).is_none());
                    } else {
                        assert!(cbuf.peek(&buf).unwrap() == &get_val);
                        let val = cbuf.get(&buf).unwrap();
                        assert!(val == get_val);
                        get_val = get_val.wrapping_add(1);
                        cur_len -= 1;
                    }
                }
                false => {
                    if cbuf.is_full() {
                        cbuf.put(&mut buf, put_val);
                        assert!(cbuf.is_full());
                    } else {
                        cbuf.put(&mut buf, put_val);
                        put_val = put_val.wrapping_add(1);
                        cur_len += 1;
                    }
                }
            }
        }
    }
}
