use std::cell::Cell;
use std::rc::Rc;

use lexbuf::{HlBuf, HlError, IterHlBuf, IterLexBuf};

/// An iterator over `data` that counts how often `next` is called.
struct Counted {
    data: Vec<i32>,
    pos: usize,
    calls: Rc<Cell<usize>>,
}

impl Counted {
    fn new(data: &[i32]) -> (Counted, Rc<Cell<usize>>) {
        let calls = Rc::new(Cell::new(0));
        (Counted { data: data.to_vec(), pos: 0, calls: calls.clone() }, calls)
    }
}

impl Iterator for Counted {
    type Item = i32;

    fn next(&mut self) -> Option<i32> {
        self.calls.set(self.calls.get() + 1);
        if self.pos < self.data.len() {
            self.pos += 1;
            Some(self.data[self.pos - 1])
        } else {
            None
        }
    }
}

#[test]
fn iter_hlbuf_reads_abc_then_end() {
    let mut buf = IterHlBuf::new("abc".bytes(), 0u8);
    assert_eq!(buf.get(), b'a');
    assert_eq!(buf.get(), b'b');
    assert_eq!(buf.validate(), b"ab".to_vec());
    assert_eq!(buf.highlight_len(), 0);
    assert_eq!(buf.get(), b'c');
    assert_eq!(buf.get(), 0);
    buf.give_up();
    assert_eq!(buf.get_highlight(), Vec::<u8>::new());
    assert_eq!(buf.get(), b'c');
}

#[test]
fn iter_lexbuf_reads_abc_then_end() {
    let mut buf = IterLexBuf::new("abc".chars(), '\0');
    assert_eq!(buf.get(), 'a');
    assert_eq!(buf.get(), 'b');
    assert_eq!(buf.validate(), vec!['a', 'b']);
    assert_eq!(buf.get(), 'c');
    assert_eq!(buf.get(), '\0');
    buf.give_up();
    assert_eq!(buf.get_highlight(), Vec::<char>::new());
}

#[test]
fn new_pulls_nothing() {
    let (src, calls) = Counted::new(&[1, 2, 3]);
    let buf = IterHlBuf::new(src, -1);
    assert_eq!(calls.get(), 0);
    assert_eq!(buf.cache_len(), 0);
    assert_eq!(buf.highlight_len(), 0);
    assert_eq!(buf.get_endind(), -1);
    assert!(buf.has_room());
    let lex = IterLexBuf::new(1..4, 0);
    assert_eq!(lex.get_endind(), 0);
    assert_eq!(lex.cache_len(), 0);
}

#[test]
fn items_come_in_pull_order() {
    let mut buf = IterHlBuf::new(10..20, 0);
    buf.get();
    buf.move_on();
    let mut got = Vec::new();
    for _ in 0..5 {
        got.push(buf.get());
    }
    assert_eq!(got, vec![11, 12, 13, 14, 15]);
    assert_eq!(buf.get_highlight(), got);
}

#[test]
fn validate_on_iter_is_get_highlight_then_move_on() {
    let mut one = IterHlBuf::new(1..100, 0);
    let mut two = IterHlBuf::new(1..100, 0);
    for _ in 0..4 {
        one.get();
        two.get();
    }
    let validated = one.validate();
    let highlight = two.get_highlight();
    two.move_on();
    assert_eq!(validated, vec![1, 2, 3, 4]);
    assert_eq!(validated, highlight);
    assert_eq!(one.highlight_len(), 0);
    assert_eq!(two.highlight_len(), 0);
    assert_eq!(one.cache_len(), 0);
    assert_eq!(two.cache_len(), 0);
    assert_eq!(one.get(), 5);
    assert_eq!(two.get(), 5);
}

#[test]
fn give_up_replays_from_the_cache() {
    let (src, calls) = Counted::new(&[7, 8, 9, 10]);
    let mut buf = IterHlBuf::new(src, 0);
    let first = vec![buf.get(), buf.get(), buf.get()];
    assert_eq!(calls.get(), 3);
    buf.give_up();
    assert_eq!(buf.highlight_len(), 0);
    assert_eq!(buf.cache_len(), 3);
    let second = vec![buf.get(), buf.get(), buf.get()];
    assert_eq!(first, second);
    assert_eq!(first, vec![7, 8, 9]);
    assert_eq!(calls.get(), 3);
    assert_eq!(buf.cache_len(), 3);
    assert_eq!(buf.get(), 10);
    assert_eq!(calls.get(), 4);
}

#[test]
fn unget_then_get_gives_the_same_item() {
    let (src, calls) = Counted::new(&[7, 8, 9]);
    let mut buf = IterLexBuf::new(src, 0);
    buf.get();
    let before = buf.get_highlight();
    let c = buf.get();
    assert_eq!(c, 8);
    assert_eq!(buf.highlight_len(), 2);
    buf.unget();
    assert_eq!(buf.highlight_len(), 1);
    assert_eq!(buf.get_highlight(), before);
    assert_eq!(buf.get(), c);
    assert_eq!(calls.get(), 2);
    assert_eq!(buf.get_highlight(), vec![7, 8]);
}

#[test]
fn past_the_end_every_get_grows_the_cache() {
    let (src, calls) = Counted::new(&[5]);
    let mut buf = IterHlBuf::new(src, -1);
    assert_eq!(buf.get(), 5);
    assert_eq!(buf.cache_len(), 1);
    for i in 0..50 {
        assert_eq!(buf.get(), -1);
        assert_eq!(buf.cache_len(), 2 + i);
        assert_eq!(calls.get(), 2 + i);
    }
    assert_eq!(buf.highlight_len(), 51);
    // a cached end indicator is read again without growth
    buf.unget();
    assert_eq!(buf.get(), -1);
    assert_eq!(buf.cache_len(), 51);
    assert_eq!(calls.get(), 51);
    buf.move_on();
    assert_eq!(buf.cache_len(), 0);
    assert_eq!(buf.get(), -1);
    assert_eq!(buf.cache_len(), 1);
}

#[test]
fn shrink_moves_the_origin_and_keeps_the_cache() {
    let mut buf = IterHlBuf::new(1..10, 0);
    buf.get();
    assert_eq!(buf.highlight_len(), 1);
    buf.shrink();
    assert_eq!(buf.highlight_len(), 0);
    assert_eq!(buf.cache_len(), 1);
    assert_eq!(buf.try_shrink(), Err(HlError::EmptyWindow));
    assert_eq!(buf.highlight_len(), 0);
    buf.get();
    buf.get();
    buf.get();
    buf.shrink();
    assert_eq!(buf.get_highlight(), vec![3, 4]);
    buf.give_up();
    assert_eq!(buf.get(), 3);
    assert_eq!(buf.cache_len(), 4);
}

#[test]
fn unget_on_an_empty_highlight_is_reported() {
    let mut buf = IterLexBuf::new(1..10, 0);
    assert_eq!(buf.try_unget(), Err(HlError::UngetPastTail));
    buf.get();
    assert_eq!(buf.try_unget(), Ok(()));
    assert_eq!(buf.try_unget(), Err(HlError::UngetPastTail));
    assert_eq!(buf.try_get(), Ok(1));
}

#[test]
fn get_is_always_served() {
    let mut buf = IterHlBuf::new(0..10_000u32, u32::MAX);
    for i in 0..10_000u32 {
        assert!(buf.has_room());
        assert_eq!(buf.try_get(), Ok(i));
    }
    assert_eq!(buf.highlight_len(), 10_000);
    assert_eq!(buf.try_get(), Ok(u32::MAX));
}

#[test]
fn move_on_drops_what_was_taken_back() {
    let (src, calls) = Counted::new(&[1, 2, 3, 4]);
    let mut buf = IterHlBuf::new(src, 0);
    buf.get();
    buf.get();
    buf.unget();
    assert_eq!(buf.cache_len(), 2);
    buf.move_on();
    assert_eq!(buf.cache_len(), 0);
    assert_eq!(buf.get(), 3);
    assert_eq!(calls.get(), 3);
}
