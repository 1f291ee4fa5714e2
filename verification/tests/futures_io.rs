//! The asynchronous reader in the manner of `futures`, driven over ordinary and
//! failing sources.
use std::io::{self, ErrorKind};
use std::ops::RangeTo;
use std::pin::Pin;
use std::sync::atomic::{AtomicUsize, Ordering};
use std::sync::Arc;
use std::task::{Context, Poll, Waker};

use futures_util::io::{AsyncRead, Cursor};
use peekable::attempt::{Attempt, Prepared, Settled};
use peekable::buffer::{Buffer, TinyBuffer};
use peekable::future::{into_io, AsyncPeekExt, AsyncPeekable};
use peekable::ops::Operation;

/// Drives an operation until it is done or its reader is not ready.
fn poll<R: AsyncRead + Unpin>(op: &mut impl Operation<R>) -> Poll<io::Result<usize>> {
    let mut cx = Context::from_waker(Waker::noop());
    loop {
        assert!(op.is_within_limits());
        if let Prepared::Done(result) = op.prepare() {
            return Poll::Ready(result.map_err(into_io));
        }
        let (reader, lent) = op.lend();
        let attempt = match Pin::new(reader).poll_read(&mut cx, lent) {
            Poll::Ready(outcome) => Attempt::from_result(outcome),
            Poll::Pending => Attempt::Pending,
        };
        match op.settle(attempt) {
            Settled::Done(result) => return Poll::Ready(result.map_err(into_io)),
            Settled::Pending => return Poll::Pending,
            Settled::Again => {}
        }
    }
}

/// Runs an operation to its end.
fn run<R: AsyncRead + Unpin>(mut op: impl Operation<R>) -> io::Result<usize> {
    loop {
        if let Poll::Ready(result) = poll(&mut op) {
            return result;
        }
    }
}

fn read<R, B>(p: &mut AsyncPeekable<R, B>, buf: &mut [u8]) -> io::Result<usize>
where
    R: AsyncRead + Unpin,
    B: Buffer,
{
    run(p.read(buf))
}

fn read_exact<R, B>(p: &mut AsyncPeekable<R, B>, buf: &mut [u8]) -> io::Result<()>
where
    R: AsyncRead + Unpin,
    B: Buffer,
{
    let mut filled = 0;
    while filled < buf.len() {
        let n = read(p, &mut buf[filled..])?;
        assert!(n > 0, "the stream ended early");
        filled += n;
    }
    Ok(())
}

fn read_to_end<R, B>(p: &mut AsyncPeekable<R, B>, out: &mut Vec<u8>) -> io::Result<usize>
where
    R: AsyncRead + Unpin,
    B: Buffer,
{
    let mut total = 0;
    loop {
        let mut chunk = [0u8; 4];
        let n = read(p, &mut chunk)?;
        if n == 0 {
            return Ok(total);
        }
        out.extend_from_slice(&chunk[..n]);
        total += n;
    }
}

fn peek<R, B>(p: &mut AsyncPeekable<R, B>, buf: &mut [u8]) -> io::Result<usize>
where
    R: AsyncRead + Unpin,
    B: Buffer,
{
    run(p.peek(buf))
}

fn peek_vectored<'a, R, B>(
    p: &'a mut AsyncPeekable<R, B>,
    bufs: &'a mut [&'a mut [u8]],
) -> io::Result<usize>
where
    R: AsyncRead + Unpin,
    B: Buffer,
{
    run(p.peek_vectored(bufs))
}

fn peek_exact<R, B>(p: &mut AsyncPeekable<R, B>, buf: &mut [u8]) -> io::Result<usize>
where
    R: AsyncRead + Unpin,
    B: Buffer,
{
    run(p.peek_exact(buf))
}

fn peek_to_end<R, B>(p: &mut AsyncPeekable<R, B>, out: &mut Vec<u8>) -> io::Result<usize>
where
    R: AsyncRead + Unpin,
    B: Buffer,
{
    run(p.peek_to_end(out))
}

fn peek_to_string<R, B>(p: &mut AsyncPeekable<R, B>, out: &mut String) -> io::Result<usize>
where
    R: AsyncRead + Unpin,
    B: Buffer,
{
    run(p.peek_to_string(out))
}

fn fill_peek_buf<R, B>(p: &mut AsyncPeekable<R, B>) -> io::Result<usize>
where
    R: AsyncRead + Unpin,
    B: Buffer,
{
    run(p.fill_peek_buf())
}

/// What a flaky reader does on one call.
#[derive(Clone, Copy, Debug)]
enum Action {
    Pending,
    Interrupted,
    WouldBlock,
    OtherErr,
    ReadFromInner,
}

/// A reader that does not always deliver.
struct FlakyReader {
    inner: Cursor<Vec<u8>>,
    plan: Vec<Action>,
    call: Arc<AtomicUsize>,
}

impl FlakyReader {
    fn new(data: Vec<u8>, plan: Vec<Action>) -> Self {
        Self {
            inner: Cursor::new(data),
            plan,
            call: Arc::new(AtomicUsize::new(0)),
        }
    }
}

impl AsyncRead for FlakyReader {
    fn poll_read(
        mut self: Pin<&mut Self>,
        cx: &mut Context<'_>,
        buf: &mut [u8],
    ) -> Poll<io::Result<usize>> {
        let i = self.call.fetch_add(1, Ordering::SeqCst);
        let act = self.plan.get(i).copied().unwrap_or(Action::ReadFromInner);
        match act {
            Action::Pending => {
                cx.waker().wake_by_ref();
                Poll::Pending
            }
            Action::Interrupted => Poll::Ready(Err(io::Error::new(ErrorKind::Interrupted, "x"))),
            Action::WouldBlock => Poll::Ready(Err(io::Error::new(ErrorKind::WouldBlock, "wb"))),
            Action::OtherErr => Poll::Ready(Err(io::Error::new(ErrorKind::Other, "boom"))),
            Action::ReadFromInner => Pin::new(&mut self.inner).poll_read(cx, buf),
        }
    }
}

/// A buffer that refuses to hold more than `CAP` bytes.
#[derive(Debug, Default)]
struct BoundedBuffer<const CAP: usize> {
    inner: Vec<u8>,
}

impl<const CAP: usize> Buffer for BoundedBuffer<CAP> {
    fn new() -> Self {
        Self { inner: Vec::new() }
    }

    fn with_capacity(_: usize) -> Self {
        Self { inner: Vec::new() }
    }

    fn consume(&mut self, rng: RangeTo<usize>) {
        self.inner.drain(rng);
    }

    fn clear(&mut self) {
        self.inner.clear();
    }

    fn resize(&mut self, len: usize) -> io::Result<()> {
        if len > CAP {
            return Err(io::Error::new(ErrorKind::OutOfMemory, "BoundedBuffer cap"));
        }
        self.inner.resize(len, 0);
        Ok(())
    }

    fn truncate(&mut self, len: usize) {
        self.inner.truncate(len);
    }

    fn extend_from_slice(&mut self, other: &[u8]) -> io::Result<()> {
        if self.inner.len() + other.len() > CAP {
            return Err(io::Error::new(ErrorKind::OutOfMemory, "BoundedBuffer cap"));
        }
        self.inner.extend_from_slice(other);
        Ok(())
    }

    fn as_slice(&self) -> &[u8] {
        &self.inner
    }

    fn as_mut_slice(&mut self) -> &mut [u8] {
        &mut self.inner
    }

    fn len(&self) -> usize {
        self.inner.len()
    }

    fn is_empty(&self) -> bool {
        self.inner.is_empty()
    }

    fn capacity(&self) -> usize {
        CAP
    }
}

#[test]
fn bug7_poll_peek_error_truncates_buffer() {
    let r = FlakyReader::new(
        b"hello".to_vec(),
        vec![
            Action::ReadFromInner,
            Action::OtherErr,
        ],
    );
    let mut p = AsyncPeekable::new(r);
    let mut b = [0u8; 2];
    peek(&mut p, &mut b).unwrap();
    assert_eq!(&b, b"he");

    let mut b = [0u8; 5];
    let err = peek(&mut p, &mut b).unwrap_err();
    assert_eq!(err.kind(), ErrorKind::Other);
    let mut b = [0u8; 2];
    let n = peek(&mut p, &mut b).unwrap();
    assert_eq!(n, 2);
    assert_eq!(&b, b"he");
}

#[test]
fn bug7_poll_peek_pending_truncates_buffer() {
    let r = FlakyReader::new(
        b"hello".to_vec(),
        vec![
            Action::ReadFromInner,
            Action::Pending,
            Action::ReadFromInner,
        ],
    );
    let mut p = AsyncPeekable::new(r);
    let mut b = [0u8; 2];
    peek(&mut p, &mut b).unwrap();
    assert_eq!(&b, b"he");

    let mut b = [0u8; 5];
    let n = peek(&mut p, &mut b).unwrap();
    let valid = match n {
        2 => &b[..2] == b"he",
        5 => &b[..] == b"hello",
        _ => false,
    };
    assert!(valid, "unexpected peek result: n={} b={:?}", n, b);
}

#[test]
fn poll_peek_want_less_than_buffer() {
    let r = FlakyReader::new(
        b"abcdef".to_vec(),
        vec![Action::ReadFromInner],
    );
    let mut p = AsyncPeekable::new(r);
    let mut b = [0u8; 4];
    peek(&mut p, &mut b).unwrap();
    assert_eq!(&b, b"abcd");
    let calls_after_first = p.get_ref().1.call.load(Ordering::SeqCst);
    let mut b = [0u8; 2];
    let n = peek(&mut p, &mut b).unwrap();
    assert_eq!(n, 2);
    assert_eq!(&b, b"ab");
    let calls_after_second = p.get_ref().1.call.load(Ordering::SeqCst);
    assert_eq!(
        calls_after_first, calls_after_second,
        "Ordering::Less branch must not touch the inner reader"
    );
    let mut b = [0u8; 4];
    let n = peek(&mut p, &mut b).unwrap();
    assert_eq!(n, 4);
    assert_eq!(&b, b"abcd");
}

#[test]
fn futures_io_fill_peek_buf_error_truncates_buffer() {
    let r = FlakyReader::new(b"abcd".to_vec(), vec![Action::OtherErr]);
    let mut p = AsyncPeekable::with_capacity(r, 8);
    let err = fill_peek_buf(&mut p).unwrap_err();
    assert_eq!(err.kind(), ErrorKind::Other);

    let mut buf = [0u8; 4];
    let n = peek(&mut p, &mut buf).unwrap();
    assert_eq!(n, 4);
    assert_eq!(&buf, b"abcd");
}

#[test]
fn futures_io_peek_to_end_then_read_to_end() {
    let mut p = Cursor::new(b"hello world".to_vec()).peekable();
    let mut out = Vec::new();
    let n = peek_to_end(&mut p, &mut out).unwrap();
    assert_eq!(n, 11);

    let mut out = Vec::new();
    let n = read_to_end(&mut p, &mut out).unwrap();
    assert_eq!(n, 11);
}

#[test]
fn futures_io_peek_to_string_invalid_utf8() {
    let mut p = Cursor::new(vec![0xFFu8; 4]).peekable();
    let mut s = String::new();
    let err = peek_to_string(&mut p, &mut s).unwrap_err();
    assert_eq!(err.kind(), ErrorKind::InvalidData);
}

#[test]
fn futures_io_peek_to_string_invalid_utf8_in_buffer() {
    let mut p = Cursor::new(b"abc\xff".to_vec()).peekable();
    let mut buf = [0u8; 4];
    peek(&mut p, &mut buf).unwrap();
    let mut s = String::new();
    let err = peek_to_string(&mut p, &mut s).unwrap_err();
    assert_eq!(err.kind(), ErrorKind::InvalidData);
}

#[test]
fn futures_io_peek_exact_eof_error() {
    let mut p = Cursor::new(b"ab".to_vec()).peekable();
    let mut buf = [0u8; 5];
    let err = peek_exact(&mut p, &mut buf).unwrap_err();
    assert_eq!(err.kind(), ErrorKind::UnexpectedEof);
}

#[test]
fn futures_io_peek_into_zero_length_buffer() {
    let mut p = Cursor::new(b"abc".to_vec()).peekable();
    let mut buf = [];
    let _ = peek(&mut p, &mut buf).unwrap();
}

#[test]
fn futures_io_peek_vectored_basic() {
    let mut p = Cursor::new(b"abcdef".to_vec()).peekable();
    let mut a = [0u8; 3];
    let mut b = [0u8; 3];
    let mut bufs: [&mut [u8]; 2] = [&mut a, &mut b];
    let n = peek_vectored(&mut p, &mut bufs).unwrap();
    assert!(n > 0);
    assert_eq!(&a[..3], b"abc");
}

#[test]
fn peek_vectored_empty_first_buf() {
    let mut p = Cursor::new(b"abcdef".to_vec()).peekable();
    let mut a = [];
    let mut b = [0u8; 3];
    let mut bufs: [&mut [u8]; 2] = [&mut a, &mut b];
    let n = peek_vectored(&mut p, &mut bufs).unwrap();
    assert_eq!(n, 3);
    assert_eq!(&b[..3], b"abc");
}

#[test]
fn futures_io_peek_vectored_all_empty() {
    let mut p = Cursor::new(b"abcdef".to_vec()).peekable();
    let mut bufs: [&mut [u8]; 0] = [];
    let n = peek_vectored(&mut p, &mut bufs).unwrap();
    assert_eq!(n, 0);
}

#[test]
fn futures_io_read_when_peek_buffer_equals_request() {
    let mut p = Cursor::new(b"abcd".to_vec()).peekable();
    peek(&mut p, &mut [0u8; 4]).unwrap();
    let mut out = [0u8; 4];
    read_exact(&mut p, &mut out).unwrap();
    assert_eq!(&out, b"abcd");
}

#[test]
fn futures_io_read_when_peek_buffer_larger_than_request() {
    let mut p = Cursor::new(b"abcdef".to_vec()).peekable();
    peek(&mut p, &mut [0u8; 6]).unwrap();
    let mut out = [0u8; 2];
    read_exact(&mut p, &mut out).unwrap();
    assert_eq!(&out, b"ab");
    let mut out = [0u8; 4];
    read_exact(&mut p, &mut out).unwrap();
    assert_eq!(&out, b"cdef");
}

#[test]
fn futures_io_from_tuple_constructor() {
    let p: AsyncPeekable<_> = AsyncPeekable::from((16, Cursor::new(b"abc".to_vec())));
    let _ = p.into_components();
}

#[test]
fn futures_io_with_buffer_vec() {
    let mut p: AsyncPeekable<_, Vec<u8>> = Cursor::new(b"abc".to_vec()).peekable_with_buffer();
    let mut b = [0u8; 3];
    peek(&mut p, &mut b).unwrap();
    assert_eq!(&b, b"abc");
}

#[test]
fn futures_io_with_capacity_and_buffer_vec() {
    let mut p: AsyncPeekable<_, Vec<u8>> =
        Cursor::new(b"abc".to_vec()).peekable_with_capacity_and_buffer(64);
    let mut b = [0u8; 3];
    peek(&mut p, &mut b).unwrap();
    assert_eq!(&b, b"abc");
}

#[test]
fn futures_io_with_buffer_tinyvec() {
    let mut p: AsyncPeekable<_, TinyBuffer> =
        Cursor::new(b"abc".to_vec()).peekable_with_buffer();
    let mut b = [0u8; 3];
    peek(&mut p, &mut b).unwrap();
    assert_eq!(&b, b"abc");
}

#[test]
fn futures_io_consume_and_consume_in_place() {
    let mut p = Cursor::new(b"abcdefgh".to_vec()).peekable_with_capacity(64);
    peek(&mut p, &mut [0u8; 2]).unwrap();
    let buf = p.consume();
    assert_eq!(Buffer::as_slice(&buf), b"ab");

    peek(&mut p, &mut [0u8; 2]).unwrap();
    p.consume_in_place();
    let mut out = [0u8; 2];
    let n = peek(&mut p, &mut out).unwrap();
    assert_eq!(n, 2);
}

#[test]
fn futures_io_get_ref_and_get_mut() {
    let mut p = Cursor::new(b"abcd".to_vec()).peekable();
    peek(&mut p, &mut [0u8; 2]).unwrap();
    let (peeked, _) = p.get_ref();
    assert_eq!(peeked, b"ab");
    let (peeked, _) = p.get_mut();
    assert_eq!(peeked, b"ab");
}

#[test]
fn futures_io_fill_peek_buf_basic() {
    let mut p = Cursor::new(b"abcd".to_vec()).peekable_with_capacity(8);
    let n = fill_peek_buf(&mut p).unwrap();
    assert_eq!(n, 4);
}

#[test]
fn fill_peek_buf_already_at_capacity_returns_zero() {
    let mut p: AsyncPeekable<_, Vec<u8>> =
        AsyncPeekable::with_capacity_and_buffer(Cursor::new(b"abcdefgh".to_vec()), 4);
    peek(&mut p, &mut [0u8; 4]).unwrap();
    let n = fill_peek_buf(&mut p).unwrap();
    assert_eq!(n, 0);
}

#[test]
fn futures_io_peek_to_end_propagates_error() {
    let r = FlakyReader::new(
        b"abc".to_vec(),
        vec![Action::ReadFromInner, Action::OtherErr],
    );
    let mut p = AsyncPeekable::new(r);
    let mut out = Vec::new();
    let err = peek_to_end(&mut p, &mut out).unwrap_err();
    assert_eq!(err.kind(), ErrorKind::Other);
}

#[test]
fn futures_io_peek_to_string_propagates_error() {
    let r = FlakyReader::new(
        b"hello".to_vec(),
        vec![Action::ReadFromInner, Action::OtherErr],
    );
    let mut p = AsyncPeekable::new(r);
    let mut s = String::new();
    let err = peek_to_string(&mut p, &mut s).unwrap_err();
    assert_eq!(err.kind(), ErrorKind::Other);
}

#[test]
fn futures_io_poll_read_no_buffer_inner_error() {
    let r = FlakyReader::new(b"".to_vec(), vec![Action::OtherErr]);
    let mut p = AsyncPeekable::new(r);
    let mut out = [0u8; 4];
    let err = read(&mut p, &mut out).unwrap_err();
    assert_eq!(err.kind(), ErrorKind::Other);
}

#[test]
fn futures_io_poll_peek_no_buffer_inner_error() {
    let r = FlakyReader::new(b"".to_vec(), vec![Action::OtherErr]);
    let mut p = AsyncPeekable::new(r);
    let mut out = [0u8; 4];
    let err = peek(&mut p, &mut out).unwrap_err();
    assert_eq!(err.kind(), ErrorKind::Other);
}

#[test]
fn futures_io_read_when_request_greater_than_buffer_error() {
    let r = FlakyReader::new(
        b"hello".to_vec(),
        vec![Action::ReadFromInner, Action::OtherErr],
    );
    let mut p = AsyncPeekable::new(r);
    peek(&mut p, &mut [0u8; 2]).unwrap();
    let mut out = [0u8; 5];
    let err = read(&mut p, &mut out).unwrap_err();
    assert_eq!(err.kind(), ErrorKind::Other);
}

#[test]
fn futures_io_fill_peek_buf_pending_truncates_buffer() {
    let r = FlakyReader::new(b"".to_vec(), vec![Action::Pending]);
    let mut p = AsyncPeekable::with_capacity(r, 8);

    match poll(&mut p.fill_peek_buf()) {
        Poll::Pending => {}
        other => panic!("unexpected: {:?}", other),
    }
    assert_eq!(Buffer::len(&p.consume()), 0);
}

#[test]
fn poll_peek_no_buffer_pending() {
    let r = FlakyReader::new(b"".to_vec(), vec![Action::Pending]);
    let mut p = AsyncPeekable::new(r);
    let mut out = [0u8; 4];

    match poll(&mut p.peek(&mut out)) {
        Poll::Pending => {}
        other => panic!("unexpected: {:?}", other),
    }
}

#[test]
fn poll_read_greater_branch_pending_partial_returns_buffered_data() {
    let r = FlakyReader::new(
        b"hello".to_vec(),
        vec![Action::ReadFromInner, Action::Pending],
    );
    let mut p = AsyncPeekable::new(r);
    peek(&mut p, &mut [0u8; 3]).unwrap();

    let mut out = [0u8; 5];
    match poll(&mut p.read(&mut out)) {
        Poll::Ready(Ok(n)) => assert_eq!(n, 3),
        other => panic!("unexpected: {:?}", other),
    }
    assert_eq!(&out[..3], b"hel");
}

#[test]
fn future_test_peek_exact_peek_exact_read_exact() {
    let mut peekable = Cursor::new([1, 2, 3, 4, 5, 6, 7, 8, 9]).peekable();
    let mut buf1 = [0; 2];
    peek_exact(&mut peekable, &mut buf1).unwrap();
    assert_eq!(buf1, [1, 2]);

    let mut buf2 = [0; 4];
    peek_exact(&mut peekable, &mut buf2).unwrap();
    assert_eq!(buf2, [1, 2, 3, 4]);

    let mut buf3 = [0; 4];
    read_exact(&mut peekable, &mut buf3).unwrap();
    assert_eq!(buf3, [1, 2, 3, 4]);
}

#[test]
fn future_test_peek_exact_peek_exact_read_exact_1() {
    let mut peekable = Cursor::new([1, 2, 3, 4, 5, 6, 7, 8, 9]).peekable_with_buffer::<Vec<u8>>();
    let mut buf1 = [0; 2];
    peek_exact(&mut peekable, &mut buf1).unwrap();
    assert_eq!(buf1, [1, 2]);

    let mut buf2 = [0; 4];
    peek_exact(&mut peekable, &mut buf2).unwrap();
    assert_eq!(buf2, [1, 2, 3, 4]);

    let mut buf3 = [0; 4];
    read_exact(&mut peekable, &mut buf3).unwrap();
    assert_eq!(buf3, [1, 2, 3, 4]);
}

#[test]
fn future_test_peek_exact_peek_exact_read_exact_2() {
    let mut peekable =
        Cursor::new([1, 2, 3, 4, 5, 6, 7, 8, 9]).peekable_with_capacity_and_buffer::<Vec<u8>>(24);
    let mut buf1 = [0; 2];
    peek_exact(&mut peekable, &mut buf1).unwrap();
    assert_eq!(buf1, [1, 2]);

    let mut buf2 = [0; 4];
    peek_exact(&mut peekable, &mut buf2).unwrap();
    assert_eq!(buf2, [1, 2, 3, 4]);

    let mut buf3 = [0; 4];
    read_exact(&mut peekable, &mut buf3).unwrap();
    assert_eq!(buf3, [1, 2, 3, 4]);
}

#[test]
fn futures_peek_exact_resumes_after_pending() {
    let r = FlakyReader::new(
        b"abcd".to_vec(),
        vec![Action::ReadFromInner, Action::Pending, Action::Interrupted],
    );
    let mut p = AsyncPeekable::new(r);
    peek(&mut p, &mut [0u8; 2]).unwrap();
    let mut buf = [0u8; 4];
    assert_eq!(peek_exact(&mut p, &mut buf).unwrap(), 4);
    assert_eq!(&buf, b"abcd");
}

#[test]
fn futures_peek_to_end_resumes_after_pending() {
    let r = FlakyReader::new(
        b"abcdef".to_vec(),
        vec![Action::ReadFromInner, Action::Pending, Action::Interrupted],
    );
    let mut p = AsyncPeekable::new(r);
    peek(&mut p, &mut [0u8; 2]).unwrap();
    let mut out = b"seed:".to_vec();
    assert_eq!(peek_to_end(&mut p, &mut out).unwrap(), 6);
    assert_eq!(out, b"seed:abcdef");
}

#[test]
fn futures_peek_to_string_keeps_nothing_of_incomplete_text_on_error() {
    let r = FlakyReader::new(
        vec![b'h', 0xE2, 0x82],
        vec![Action::ReadFromInner, Action::OtherErr],
    );
    let mut p = AsyncPeekable::new(r);
    let mut out = String::from("prefix:");
    let err = peek_to_string(&mut p, &mut out).unwrap_err();
    assert_eq!(err.kind(), ErrorKind::Other);
    assert_eq!(out, "prefix:");
    assert_eq!(p.get_ref().0, [b'h', 0xE2, 0x82]);
}

#[test]
fn futures_peek_to_string_wants_room_for_whole_chunks() {
    let mut p: AsyncPeekable<_, BoundedBuffer<100>> =
        Cursor::new(b"hello".to_vec()).peekable_with_buffer();
    peek(&mut p, &mut [0u8; 2]).unwrap();
    let mut out = String::new();
    let err = peek_to_string(&mut p, &mut out).unwrap_err();
    assert_eq!(err.kind(), ErrorKind::OutOfMemory);
    assert_eq!(out, "he");
    let mut all = Vec::new();
    assert_eq!(peek_to_end(&mut p, &mut all).unwrap(), 5);
    assert_eq!(all, b"hello");
}

#[test]
fn futures_peek_would_block_makes_do_with_what_was_peeked() {
    let r = FlakyReader::new(
        b"hello".to_vec(),
        vec![Action::ReadFromInner, Action::WouldBlock],
    );
    let mut p = AsyncPeekable::new(r);
    peek(&mut p, &mut [0u8; 2]).unwrap();
    let mut out = [9u8; 5];
    assert_eq!(peek(&mut p, &mut out).unwrap(), 2);
    assert_eq!(&out, b"he\x09\x09\x09");
}

#[test]
fn futures_peek_would_block_is_pending_with_nothing_peeked() {
    let r = FlakyReader::new(b"hello".to_vec(), vec![Action::WouldBlock]);
    let mut p = AsyncPeekable::new(r);
    let mut out = [0u8; 5];
    assert!(poll(&mut p.peek(&mut out)).is_pending());
    assert!(p.get_ref().0.is_empty());
}

#[test]
fn futures_fill_peek_buf_passes_an_interruption_on() {
    let r = FlakyReader::new(b"abcd".to_vec(), vec![Action::Interrupted]);
    let mut p = AsyncPeekable::with_capacity(r, 8);
    let err = fill_peek_buf(&mut p).unwrap_err();
    assert_eq!(err.kind(), ErrorKind::Interrupted);
    assert_eq!(fill_peek_buf(&mut p).unwrap(), 4);
}

#[test]
fn futures_failed_read_keeps_the_peeked_bytes() {
    let r = FlakyReader::new(
        b"hello".to_vec(),
        vec![Action::ReadFromInner, Action::OtherErr],
    );
    let mut p = AsyncPeekable::new(r);
    peek(&mut p, &mut [0u8; 2]).unwrap();
    assert!(read(&mut p, &mut [0u8; 5]).is_err());
    let mut out = Vec::new();
    assert_eq!(read_to_end(&mut p, &mut out).unwrap(), 5);
    assert_eq!(out, b"hello");
}
