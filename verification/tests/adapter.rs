use lexbuf::{HlBuf, HlIter, IterHlBuf, ReadHlBuf, SliceSource, BUFSIZE};

#[test]
fn iterating_bytes_stops_at_zero() {
    let mut buf = ReadHlBuf::new(SliceSource::new(b"let x"));
    let mut word = Vec::new();
    {
        let mut it = buf.iter();
        while let Some(c) = it.next() {
            if c == b' ' {
                break;
            }
            word.push(c);
        }
    }
    assert_eq!(word, b"let".to_vec());
    assert_eq!(buf.get_highlight(), b"let ".to_vec());
    buf.unget();
    assert_eq!(buf.validate(), b"let".to_vec());
    let mut rest = Vec::new();
    {
        let mut it = buf.iter();
        while let Some(c) = it.next() {
            rest.push(c);
        }
        assert_eq!(it.next(), None);
    }
    assert_eq!(rest, b" x".to_vec());
    // the zero that ended the iteration is part of the highlight, twice
    assert_eq!(buf.get_highlight(), b" x\0\0".to_vec());
}

#[test]
fn iterating_items_stops_at_the_end_indicator() {
    let mut buf = IterHlBuf::new(vec![3, 1, 4, 1, 5].into_iter(), -1);
    let mut seen = Vec::new();
    {
        let mut it = HlIter { lb: &mut buf };
        while let Some(x) = it.next() {
            seen.push(x);
        }
        assert_eq!(it.next(), None);
    }
    assert_eq!(seen, vec![3, 1, 4, 1, 5]);
    assert_eq!(buf.get_highlight(), vec![3, 1, 4, 1, 5, -1, -1]);
    assert_eq!(buf.cache_len(), 7);
}

#[test]
fn an_item_equal_to_the_end_indicator_ends_the_iteration() {
    let mut buf = IterHlBuf::new(vec![2, 0, 7].into_iter(), 0);
    {
        let mut it = buf.iter();
        assert_eq!(it.next(), Some(2));
        assert_eq!(it.next(), None);
        assert_eq!(it.next(), Some(7));
        assert_eq!(it.next(), None);
    }
    assert_eq!(buf.validate(), vec![2, 0, 7, 0]);
}

#[test]
fn iterating_across_a_refill() {
    let data: Vec<u8> = (0..BUFSIZE + 5).map(|i| (i % 200) as u8 + 1).collect();
    let mut buf = ReadHlBuf::new(SliceSource::new(&data));
    let mut n = 0;
    {
        let mut it = buf.iter();
        while let Some(c) = it.next() {
            assert_eq!(c, data[n]);
            n += 1;
            it.lb.move_on();
        }
    }
    assert_eq!(n, BUFSIZE + 5);
    assert_eq!(buf.get_highlight(), vec![0u8]);
}
