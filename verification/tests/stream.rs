//! What operations do to a stream, step by step.
use std::io::{Error, ErrorKind};

use peekable::attempt::{Attempt, Prepared, Settled};
use peekable::error::PeekError;
use peekable::ops::first_non_empty;
use peekable::Peekable;

/// A reader that is never read from: the tests deliver the bytes themselves.
struct Nobody;

fn failed() -> Attempt {
    Attempt::from_result(Err(Error::new(ErrorKind::Other, "boom")))
}

fn interrupted() -> Attempt {
    Attempt::from_result(Err(Error::new(ErrorKind::Interrupted, "x")))
}

fn would_block() -> Attempt {
    Attempt::from_result(Err(Error::new(ErrorKind::WouldBlock, "wb")))
}

/// Peeks into `buf`, and delivers `bytes` if the reader is asked.
fn peek(p: &mut Peekable<Nobody>, buf: &mut [u8], bytes: &[u8]) -> usize {
    let mut op = p.peek(buf);
    if let Prepared::Done(result) = op.prepare() {
        return result.unwrap();
    }
    let (_, lent) = op.lend();
    lent[..bytes.len()].copy_from_slice(bytes);
    match op.settle(Attempt::Ready(bytes.len())) {
        Settled::Done(result) => result.unwrap(),
        _ => panic!("a delivery completes a peek"),
    }
}

/// Reads into `buf`, and delivers `bytes` if the reader is asked.
fn read(p: &mut Peekable<Nobody>, buf: &mut [u8], bytes: &[u8]) -> usize {
    let mut op = p.read(buf);
    if let Prepared::Done(result) = op.prepare() {
        return result.unwrap();
    }
    let (_, lent) = op.lend();
    lent[..bytes.len()].copy_from_slice(bytes);
    match op.settle(Attempt::Ready(bytes.len())) {
        Settled::Done(result) => result.unwrap(),
        _ => panic!("a delivery completes a read"),
    }
}

fn peeked(p: &Peekable<Nobody>) -> Vec<u8> {
    p.get_ref().0.to_vec()
}

#[test]
fn every_byte_comes_out_once_and_in_order() {
    let mut p = Peekable::new(Nobody);
    let mut given = Vec::new();
    let mut buf = [0u8; 4];

    assert_eq!(peek(&mut p, &mut buf, b"ab"), 2);
    let n = read(&mut p, &mut buf[..1], b"");
    given.extend_from_slice(&buf[..n]);
    assert_eq!(peek(&mut p, &mut buf, b"cd"), 3);
    let n = read(&mut p, &mut buf, b"e");
    given.extend_from_slice(&buf[..n]);
    assert_eq!(peek(&mut p, &mut buf, b"fg"), 2);
    let n = read(&mut p, &mut buf[..2], b"");
    given.extend_from_slice(&buf[..n]);
    let n = read(&mut p, &mut buf, b"h");
    given.extend_from_slice(&buf[..n]);

    assert_eq!(given, b"abcdefgh");
    assert!(peeked(&p).is_empty());
}

#[test]
fn what_is_read_does_not_depend_on_what_is_peeked() {
    let mut plain = Peekable::new(Nobody);
    let mut buf = [0u8; 3];
    assert_eq!(read(&mut plain, &mut buf, b"abc"), 3);

    let mut nosy = Peekable::new(Nobody);
    let mut other = [0u8; 3];
    peek(&mut nosy, &mut other[..1], b"a");
    peek(&mut nosy, &mut other[..2], b"b");
    assert_eq!(read(&mut nosy, &mut other, b"c"), 3);

    assert_eq!(buf, other);
}

#[test]
fn later_peeks_begin_like_earlier_ones() {
    let mut p = Peekable::new(Nobody);
    let mut first = [0u8; 2];
    assert_eq!(peek(&mut p, &mut first, b"ab"), 2);
    let mut second = [0u8; 5];
    assert_eq!(peek(&mut p, &mut second, b"cd"), 4);
    assert_eq!(second[..2], first);
    assert_eq!(&second, b"abcd\0");
    let mut third = [0u8; 3];
    assert_eq!(peek(&mut p, &mut third, b""), 3);
    assert_eq!(&third, b"abc");
}

#[test]
fn a_read_begins_with_what_was_shown() {
    let mut p = Peekable::new(Nobody);
    let mut shown = [0u8; 2];
    peek(&mut p, &mut shown, b"ab");
    let mut taken = [0u8; 4];
    assert_eq!(read(&mut p, &mut taken, b"c"), 3);
    assert_eq!(taken[..2], shown);
    assert_eq!(&taken[..3], b"abc");
}

#[test]
fn reads_that_deliver_nothing_leave_the_peeked_bytes_alone() {
    let mut p = Peekable::new(Nobody);
    peek(&mut p, &mut [0u8; 2], b"ab");
    for attempt in [failed(), interrupted(), would_block(), Attempt::Pending, Attempt::Ready(0)] {
        let mut buf = [0u8; 6];
        let mut op = p.peek(&mut buf);
        assert!(matches!(op.prepare(), Prepared::Read));
        let (_, lent) = op.lend();
        assert_eq!(lent, [0u8; 4]);
        lent.copy_from_slice(b"junk");
        op.settle(attempt);
        assert_eq!(peeked(&p), b"ab");
    }
}

#[test]
fn a_blocking_peek_passes_on_that_it_would_block() {
    let mut p = Peekable::new(Nobody);
    peek(&mut p, &mut [0u8; 2], b"ab");
    let mut buf = [0u8; 6];
    let mut op = p.peek(&mut buf);
    assert!(matches!(op.prepare(), Prepared::Read));
    match op.settle(would_block()) {
        Settled::Done(Err(PeekError::Io(e))) => assert_eq!(e.kind(), ErrorKind::WouldBlock),
        _ => panic!("the error is passed on"),
    }
    assert_eq!(buf, [0u8; 6]);
}

#[test]
fn peek_exact_never_asks_for_more_than_it_takes() {
    let mut p = Peekable::new(Nobody);
    peek(&mut p, &mut [0u8; 2], b"ab");
    let mut buf = [0u8; 6];
    let mut op = p.peek_exact(&mut buf);

    assert!(matches!(op.prepare(), Prepared::Read));
    assert_eq!(op.filled, 2);
    let (_, lent) = op.lend();
    assert_eq!(lent.len(), 4);
    lent[..1].copy_from_slice(b"c");
    assert!(matches!(op.settle(Attempt::Ready(1)), Settled::Again));

    assert!(matches!(op.prepare(), Prepared::Read));
    assert_eq!(op.lend().1.len(), 3);
    assert!(matches!(op.settle(interrupted()), Settled::Again));

    assert!(matches!(op.prepare(), Prepared::Read));
    let (_, lent) = op.lend();
    assert_eq!(lent.len(), 3);
    lent.copy_from_slice(b"def");
    assert!(matches!(op.settle(Attempt::Ready(3)), Settled::Done(Ok(6))));

    assert_eq!(&buf, b"abcdef");
    assert_eq!(peeked(&p), b"abcdef");
}

#[test]
fn peek_exact_keeps_what_it_got_before_the_end() {
    let mut p = Peekable::new(Nobody);
    let mut buf = [0u8; 4];
    let mut op = p.peek_exact(&mut buf);
    assert!(matches!(op.prepare(), Prepared::Read));
    op.lend().1[..2].copy_from_slice(b"ab");
    assert!(matches!(op.settle(Attempt::Ready(2)), Settled::Again));
    assert!(matches!(op.prepare(), Prepared::Read));
    assert!(matches!(
        op.settle(Attempt::Ready(0)),
        Settled::Done(Err(PeekError::UnexpectedEof))
    ));
    assert_eq!(peeked(&p), b"ab");
    assert_eq!(&buf, b"ab\0\0");
}

#[test]
fn peek_exact_into_nothing_is_done_at_once() {
    let mut p = Peekable::new(Nobody);
    let mut op = p.peek_exact(&mut []);
    assert!(matches!(op.prepare(), Prepared::Done(Ok(0))));
}

#[test]
fn peek_to_end_follows_the_stream_read_by_read() {
    let mut p = Peekable::new(Nobody);
    peek(&mut p, &mut [0u8; 2], b"ab");
    let mut out = b"seed:".to_vec();
    let mut op = p.peek_to_end(&mut out);

    assert!(matches!(op.prepare(), Prepared::Read));
    let (_, lent) = op.lend();
    assert_eq!(lent.len(), 1024);
    lent[..2].copy_from_slice(b"cd");
    assert!(matches!(op.settle(Attempt::Ready(2)), Settled::Again));
    assert_eq!(&op.out[..], b"seed:abcd");

    assert!(matches!(op.prepare(), Prepared::Read));
    assert!(matches!(op.settle(Attempt::Pending), Settled::Pending));
    assert_eq!(&op.out[..], b"seed:abcd");

    assert!(matches!(op.prepare(), Prepared::Read));
    op.lend().1[..1].copy_from_slice(b"e");
    assert!(matches!(op.settle(Attempt::Ready(1)), Settled::Again));
    assert!(matches!(op.prepare(), Prepared::Read));
    assert!(matches!(op.settle(Attempt::Ready(0)), Settled::Done(Ok(5))));

    assert_eq!(out, b"seed:abcde");
    assert_eq!(peeked(&p), b"abcde");
}

#[test]
fn peek_to_string_says_nothing_before_the_end() {
    let mut p = Peekable::new(Nobody);
    let mut out = String::from("seed:");
    let mut op = p.peek_to_string(&mut out);

    assert!(matches!(op.prepare(), Prepared::Read));
    op.lend().1[..2].copy_from_slice(&[b'h', 0xC3]);
    assert!(matches!(op.settle(Attempt::Ready(2)), Settled::Again));
    assert_eq!(&op.out[..], "seed:");

    assert!(matches!(op.prepare(), Prepared::Read));
    op.lend().1[..1].copy_from_slice(&[0xA9]);
    assert!(matches!(op.settle(Attempt::Ready(1)), Settled::Again));
    assert!(matches!(op.prepare(), Prepared::Read));
    assert!(matches!(op.settle(Attempt::Ready(0)), Settled::Done(Ok(3))));

    assert_eq!(out, "seed:hé");
}

#[test]
fn fill_peek_buf_lends_all_the_room_there_is() {
    let mut p: Peekable<Nobody, Vec<u8>> = Peekable::with_capacity_and_buffer(Nobody, 8);
    let room = p.get_ref().0.len();
    assert_eq!(room, 0);
    let mut op = p.fill_peek_buf();
    assert!(op.cap >= 8);
    let cap = op.cap;
    assert!(matches!(op.prepare(), Prepared::Read));
    let (_, lent) = op.lend();
    assert_eq!(lent.len(), cap);
    lent[..3].copy_from_slice(b"abc");
    assert!(matches!(op.settle(Attempt::Ready(3)), Settled::Done(Ok(3))));
    assert_eq!(p.get_ref().0, b"abc");
}

#[test]
fn the_first_slice_with_room_is_chosen() {
    let mut a: [u8; 0] = [];
    let mut b = [1u8; 2];
    let mut c = [2u8; 3];
    first_non_empty(&mut [&mut a, &mut b, &mut c])[0] = 9;
    assert_eq!(b, [9, 1]);
    assert_eq!(c, [2, 2, 2]);
    assert!(first_non_empty(&mut [&mut [], &mut []]).is_empty());
    assert!(first_non_empty(&mut []).is_empty());
}
