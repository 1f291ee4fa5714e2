//! The asynchronous reader in the manner of `tokio`, driven over ordinary and
//! failing sources.
use std::io::{self, Cursor, ErrorKind, Read};
use std::ops::RangeTo;
use std::pin::Pin;
use std::sync::atomic::{AtomicUsize, Ordering};
use std::sync::Arc;
use std::task::{Context, Poll, Waker};

use bytes::{BufMut, BytesMut};
use peekable::attempt::{Attempt, Prepared, Settled};
use peekable::buffer::{Buffer, TinyBuffer};
use peekable::ops::Operation;
use peekable::tokio::{into_io, AsyncPeekExt, AsyncPeekable};
use tokio::io::{AsyncRead, ReadBuf};

/// Drives an operation until it is done or its reader is not ready.
fn poll<R: AsyncRead + Unpin>(op: &mut impl Operation<R>) -> Poll<io::Result<usize>> {
    let mut cx = Context::from_waker(Waker::noop());
    loop {
        assert!(op.is_within_limits());
        if let Prepared::Done(result) = op.prepare() {
            return Poll::Ready(result.map_err(into_io));
        }
        let (reader, lent) = op.lend();
        let mut tail = ReadBuf::new(lent);
        let attempt = match Pin::new(reader).poll_read(&mut cx, &mut tail) {
            Poll::Ready(outcome) => Attempt::from_result(outcome.map(|()| tail.filled().len())),
            Poll::Pending => Attempt::Pending,
        };
        match op.settle(attempt) {
            Settled::Done(result) => return Poll::Ready(result.map_err(into_io)),
            Settled::Pending => return Poll::Pending,
            Settled::Again => {}
        }
    }
}

/// Runs an operation to its end.
fn run<R: AsyncRead + Unpin>(mut op: impl Operation<R>) -> io::Result<usize> {
    loop {
        if let Poll::Ready(result) = poll(&mut op) {
            return result;
        }
    }
}

fn read<R, B>(p: &mut AsyncPeekable<R, B>, buf: &mut [u8]) -> io::Result<usize>
where
    R: AsyncRead + Unpin,
    B: Buffer,
{
    run(p.read(buf))
}

fn read_exact<R, B>(p: &mut AsyncPeekable<R, B>, buf: &mut [u8]) -> io::Result<()>
where
    R: AsyncRead + Unpin,
    B: Buffer,
{
    let mut filled = 0;
    while filled < buf.len() {
        let n = read(p, &mut buf[filled..])?;
        assert!(n > 0, "the stream ended early");
        filled += n;
    }
    Ok(())
}

fn read_to_end<R, B>(p: &mut AsyncPeekable<R, B>, out: &mut Vec<u8>) -> io::Result<usize>
where
    R: AsyncRead + Unpin,
    B: Buffer,
{
    let mut total = 0;
    loop {
        let mut chunk = [0u8; 4];
        let n = read(p, &mut chunk)?;
        if n == 0 {
            return Ok(total);
        }
        out.extend_from_slice(&chunk[..n]);
        total += n;
    }
}

fn peek<R, B>(p: &mut AsyncPeekable<R, B>, buf: &mut [u8]) -> io::Result<usize>
where
    R: AsyncRead + Unpin,
    B: Buffer,
{
    run(p.peek(buf))
}

fn peek_buf<R, B>(p: &mut AsyncPeekable<R, B>, buf: &mut impl BufMut) -> io::Result<usize>
where
    R: AsyncRead + Unpin,
    B: Buffer,
{
    let room = if buf.has_remaining_mut() {
        buf.chunk_mut().len()
    } else {
        0
    };
    let mut chunk = vec![0u8; room];
    let n = run(p.peek_buf(&mut chunk))?;
    buf.put_slice(&chunk[..n]);
    Ok(n)
}

/// One poll of a peek into what is left of `buf`.
fn poll_peek<R, B>(p: &mut AsyncPeekable<R, B>, buf: &mut ReadBuf<'_>) -> Poll<io::Result<()>>
where
    R: AsyncRead + Unpin,
    B: Buffer,
{
    match poll(&mut p.peek(buf.initialize_unfilled())) {
        Poll::Ready(Ok(n)) => {
            buf.advance(n);
            Poll::Ready(Ok(()))
        }
        Poll::Ready(Err(e)) => Poll::Ready(Err(e)),
        Poll::Pending => Poll::Pending,
    }
}

/// One poll of a read into what is left of `buf`.
fn poll_read<R, B>(p: &mut AsyncPeekable<R, B>, buf: &mut ReadBuf<'_>) -> Poll<io::Result<()>>
where
    R: AsyncRead + Unpin,
    B: Buffer,
{
    match poll(&mut p.read(buf.initialize_unfilled())) {
        Poll::Ready(Ok(n)) => {
            buf.advance(n);
            Poll::Ready(Ok(()))
        }
        Poll::Ready(Err(e)) => Poll::Ready(Err(e)),
        Poll::Pending => Poll::Pending,
    }
}

fn peek_exact<R, B>(p: &mut AsyncPeekable<R, B>, buf: &mut [u8]) -> io::Result<usize>
where
    R: AsyncRead + Unpin,
    B: Buffer,
{
    run(p.peek_exact(buf))
}

fn peek_to_end<R, B>(p: &mut AsyncPeekable<R, B>, out: &mut Vec<u8>) -> io::Result<usize>
where
    R: AsyncRead + Unpin,
    B: Buffer,
{
    run(p.peek_to_end(out))
}

fn peek_to_string<R, B>(p: &mut AsyncPeekable<R, B>, out: &mut String) -> io::Result<usize>
where
    R: AsyncRead + Unpin,
    B: Buffer,
{
    run(p.peek_to_string(out))
}

fn fill_peek_buf<R, B>(p: &mut AsyncPeekable<R, B>) -> io::Result<usize>
where
    R: AsyncRead + Unpin,
    B: Buffer,
{
    run(p.fill_peek_buf())
}

/// What a flaky reader does on one call.
#[derive(Clone, Copy, Debug)]
enum Action {
    Pending,
    Interrupted,
    WouldBlock,
    OtherErr,
    ReadFromInner,
}

/// A reader that does not always deliver.
struct FlakyReader {
    inner: Cursor<Vec<u8>>,
    plan: Vec<Action>,
    call: Arc<AtomicUsize>,
}

impl FlakyReader {
    fn new(data: Vec<u8>, plan: Vec<Action>) -> Self {
        Self {
            inner: Cursor::new(data),
            plan,
            call: Arc::new(AtomicUsize::new(0)),
        }
    }
}

impl AsyncRead for FlakyReader {
    fn poll_read(
        mut self: Pin<&mut Self>,
        cx: &mut Context<'_>,
        buf: &mut ReadBuf<'_>,
    ) -> Poll<io::Result<()>> {
        let i = self.call.fetch_add(1, Ordering::SeqCst);
        let act = self.plan.get(i).copied().unwrap_or(Action::ReadFromInner);
        match act {
            Action::Pending => {
                cx.waker().wake_by_ref();
                Poll::Pending
            }
            Action::Interrupted => Poll::Ready(Err(io::Error::new(ErrorKind::Interrupted, "x"))),
            Action::WouldBlock => Poll::Ready(Err(io::Error::new(ErrorKind::WouldBlock, "wb"))),
            Action::OtherErr => Poll::Ready(Err(io::Error::new(ErrorKind::Other, "boom"))),
            Action::ReadFromInner => Pin::new(&mut self.inner).poll_read(cx, buf),
        }
    }
}

/// A buffer that refuses to hold more than `CAP` bytes.
#[derive(Debug, Default)]
struct BoundedBuffer<const CAP: usize> {
    inner: Vec<u8>,
}

impl<const CAP: usize> Buffer for BoundedBuffer<CAP> {
    fn new() -> Self {
        Self { inner: Vec::new() }
    }

    fn with_capacity(_: usize) -> Self {
        Self { inner: Vec::new() }
    }

    fn consume(&mut self, rng: RangeTo<usize>) {
        self.inner.drain(rng);
    }

    fn clear(&mut self) {
        self.inner.clear();
    }

    fn resize(&mut self, len: usize) -> io::Result<()> {
        if len > CAP {
            return Err(io::Error::new(ErrorKind::OutOfMemory, "BoundedBuffer cap"));
        }
        self.inner.resize(len, 0);
        Ok(())
    }

    fn truncate(&mut self, len: usize) {
        self.inner.truncate(len);
    }

    fn extend_from_slice(&mut self, other: &[u8]) -> io::Result<()> {
        if self.inner.len() + other.len() > CAP {
            return Err(io::Error::new(ErrorKind::OutOfMemory, "BoundedBuffer cap"));
        }
        self.inner.extend_from_slice(other);
        Ok(())
    }

    fn as_slice(&self) -> &[u8] {
        &self.inner
    }

    fn as_mut_slice(&mut self) -> &mut [u8] {
        &mut self.inner
    }

    fn len(&self) -> usize {
        self.inner.len()
    }

    fn is_empty(&self) -> bool {
        self.inner.is_empty()
    }

    fn capacity(&self) -> usize {
        CAP
    }
}

/// A reader that serves so many bytes, and then fails.
struct AsyncErroringReader {
    data: Vec<u8>,
    error_after: usize,
    served: usize,
    kind: ErrorKind,
}

impl AsyncErroringReader {
    fn new(data: Vec<u8>, error_after: usize, kind: ErrorKind) -> Self {
        Self {
            data,
            error_after,
            served: 0,
            kind,
        }
    }
}

impl AsyncRead for AsyncErroringReader {
    fn poll_read(
        self: Pin<&mut Self>,
        _cx: &mut Context<'_>,
        buf: &mut ReadBuf<'_>,
    ) -> Poll<io::Result<()>> {
        let me = self.get_mut();
        if me.served >= me.error_after {
            return Poll::Ready(Err(io::Error::new(me.kind, "synthetic")));
        }
        let room = (me.error_after - me.served).min(buf.remaining());
        let end = (me.served + room).min(me.data.len());
        buf.put_slice(&me.data[me.served..end]);
        me.served = end;
        Poll::Ready(Ok(()))
    }
}

#[test]
fn bug2_poll_read_on_pending_does_not_duplicate() {
    let r = FlakyReader::new(
        b"hello world".to_vec(),
        vec![
            Action::ReadFromInner,
            Action::Pending,
            Action::ReadFromInner,
        ],
    );
    let mut p = AsyncPeekable::from(r);
    let mut b = [0u8; 4];
    peek(&mut p, &mut b).unwrap();
    assert_eq!(&b, b"hell");
    let mut out1 = vec![0u8; 8];
    let n1 = read(&mut p, &mut out1).unwrap();

    let mut out2 = vec![0u8; 8];
    let n2 = read(&mut p, &mut out2).unwrap();

    let mut all = Vec::with_capacity(n1 + n2);
    all.extend_from_slice(&out1[..n1]);
    all.extend_from_slice(&out2[..n2]);

    assert_eq!(
        &all,
        b"hello world",
        "duplicated or missing bytes across reads: {:?}",
        std::str::from_utf8(&all).unwrap()
    );
}

#[test]
fn tokio_io_read_when_peek_buffer_equals_request() {
    let mut p = Cursor::new(b"abcd".to_vec()).peekable();
    peek(&mut p, &mut [0u8; 4]).unwrap();
    let mut out = [0u8; 4];
    read_exact(&mut p, &mut out).unwrap();
    assert_eq!(&out, b"abcd");
}

#[test]
fn tokio_io_read_when_peek_buffer_larger_than_request() {
    let mut p = Cursor::new(b"abcdef".to_vec()).peekable();
    peek(&mut p, &mut [0u8; 6]).unwrap();
    let mut out = [0u8; 2];
    read_exact(&mut p, &mut out).unwrap();
    assert_eq!(&out, b"ab");
    let mut out = [0u8; 4];
    read_exact(&mut p, &mut out).unwrap();
    assert_eq!(&out, b"cdef");
}

#[test]
fn tokio_io_peek_to_end_then_read_to_end() {
    let mut p = Cursor::new(b"hello world".to_vec()).peekable();
    let mut out = Vec::new();
    let n = peek_to_end(&mut p, &mut out).unwrap();
    assert_eq!(n, 11);

    let mut out = Vec::new();
    let n = read_to_end(&mut p, &mut out).unwrap();
    assert_eq!(n, 11);
}

#[test]
fn tokio_io_peek_to_string_invalid_utf8() {
    let mut p = Cursor::new(vec![0xFFu8; 4]).peekable();
    let mut s = String::new();
    let err = peek_to_string(&mut p, &mut s).unwrap_err();
    assert_eq!(err.kind(), ErrorKind::InvalidData);
}

#[test]
fn tokio_io_peek_exact_eof_error() {
    let mut p = Cursor::new(b"ab".to_vec()).peekable();
    let mut buf = [0u8; 5];
    let err = peek_exact(&mut p, &mut buf).unwrap_err();
    assert_eq!(err.kind(), ErrorKind::UnexpectedEof);
}

#[test]
fn tokio_io_peek_into_zero_length_buffer() {
    let mut p = Cursor::new(b"abc".to_vec()).peekable();
    let mut buf = [];
    let _ = peek(&mut p, &mut buf).unwrap();
}

#[test]
fn peek_buf_basic() {
    let mut p = Cursor::new(b"abcd".to_vec()).peekable();
    let mut bytes_buf = BytesMut::with_capacity(4);
    let n = peek_buf(&mut p, &mut bytes_buf).unwrap();
    assert_eq!(n, 4);
    assert_eq!(&bytes_buf[..], b"abcd");
}

#[test]
fn peek_buf_into_empty_slice_returns_zero() {
    let mut p = Cursor::new(b"abcd".to_vec()).peekable();
    let mut empty: [u8; 0] = [];
    let mut s: &mut [u8] = &mut empty;
    let n = peek_buf(&mut p, &mut s).unwrap();
    assert_eq!(n, 0);
}

#[test]
fn tokio_io_fill_peek_buf_basic() {
    let mut p = Cursor::new(b"abcd".to_vec()).peekable_with_capacity(8);
    let n = fill_peek_buf(&mut p).unwrap();
    assert_eq!(n, 4);
}

#[test]
fn fill_peek_buf_when_already_at_capacity_returns_zero() {
    let mut p: AsyncPeekable<_, Vec<u8>> =
        AsyncPeekable::with_capacity_and_buffer(Cursor::new(b"abcdefgh".to_vec()), 4);
    peek(&mut p, &mut [0u8; 4]).unwrap();
    let n = fill_peek_buf(&mut p).unwrap();
    assert_eq!(n, 0);
}

#[test]
fn tokio_io_fill_peek_buf_error_truncates_buffer() {
    let r = FlakyReader::new(b"abcd".to_vec(), vec![Action::OtherErr]);
    let mut p = AsyncPeekable::with_capacity(r, 8);
    let err = fill_peek_buf(&mut p).unwrap_err();
    assert_eq!(err.kind(), ErrorKind::Other);
    let mut buf = [0u8; 4];
    let n = peek(&mut p, &mut buf).unwrap();
    assert_eq!(n, 4);
    assert_eq!(&buf, b"abcd");
}

#[test]
fn tokio_io_from_tuple_constructor() {
    let p: AsyncPeekable<_> = AsyncPeekable::from((16, Cursor::new(b"abc".to_vec())));
    let _ = p.into_components();
}

#[test]
fn tokio_io_with_buffer_vec() {
    let mut p: AsyncPeekable<_, Vec<u8>> = Cursor::new(b"abc".to_vec()).peekable_with_buffer();
    let mut b = [0u8; 3];
    peek(&mut p, &mut b).unwrap();
    assert_eq!(&b, b"abc");
}

#[test]
fn tokio_io_with_capacity_and_buffer_vec() {
    let mut p: AsyncPeekable<_, Vec<u8>> =
        Cursor::new(b"abc".to_vec()).peekable_with_capacity_and_buffer(64);
    let mut b = [0u8; 3];
    peek(&mut p, &mut b).unwrap();
    assert_eq!(&b, b"abc");
}

#[test]
fn tokio_io_with_buffer_tinyvec() {
    let mut p: AsyncPeekable<_, TinyBuffer> =
        Cursor::new(b"abc".to_vec()).peekable_with_buffer();
    let mut b = [0u8; 3];
    peek(&mut p, &mut b).unwrap();
    assert_eq!(&b, b"abc");
}

#[test]
fn consume_in_place_and_consume_with_capacity() {
    let mut p = Cursor::new(b"abcdef".to_vec()).peekable_with_capacity(64);
    peek(&mut p, &mut [0u8; 2]).unwrap();
    let buf = p.consume();
    assert!(Buffer::capacity(&buf) >= 64);

    peek(&mut p, &mut [0u8; 2]).unwrap();
    p.consume_in_place();
    assert_eq!(Buffer::len(&p.consume()), 0);
}

#[test]
fn tokio_io_get_ref_and_get_mut() {
    let mut p = Cursor::new(b"abcd".to_vec()).peekable();
    peek(&mut p, &mut [0u8; 2]).unwrap();
    let (peeked, _) = p.get_ref();
    assert_eq!(peeked, b"ab");
    let (peeked, _) = p.get_mut();
    assert_eq!(peeked, b"ab");
}

#[test]
fn tokio_io_peek_to_end_propagates_error() {
    let r = FlakyReader::new(
        b"abc".to_vec(),
        vec![
            Action::ReadFromInner,
            Action::OtherErr,
        ],
    );
    let mut p = AsyncPeekable::from(r);
    let mut out = Vec::new();
    let err = peek_to_end(&mut p, &mut out).unwrap_err();
    assert_eq!(err.kind(), ErrorKind::Other);
}

#[test]
fn tokio_io_peek_to_string_propagates_error() {
    let r = FlakyReader::new(
        b"hello".to_vec(),
        vec![
            Action::ReadFromInner,
            Action::OtherErr,
        ],
    );
    let mut p = AsyncPeekable::from(r);
    let mut s = String::new();
    let err = peek_to_string(&mut p, &mut s).unwrap_err();
    assert_eq!(err.kind(), ErrorKind::Other);
}

#[test]
fn tokio_io_poll_read_no_buffer_inner_error() {
    let r = FlakyReader::new(b"".to_vec(), vec![Action::OtherErr]);
    let mut p = AsyncPeekable::from(r);
    let mut out = [0u8; 4];
    let err = read(&mut p, &mut out).unwrap_err();
    assert_eq!(err.kind(), ErrorKind::Other);
}

#[test]
fn tokio_io_poll_peek_no_buffer_inner_error() {
    let r = FlakyReader::new(b"".to_vec(), vec![Action::OtherErr]);
    let mut p = AsyncPeekable::from(r);
    let mut out = [0u8; 4];
    let err = peek(&mut p, &mut out).unwrap_err();
    assert_eq!(err.kind(), ErrorKind::Other);
}

#[test]
fn peek_to_end_survives_pending_boundary() {
    let r = FlakyReader::new(
        b"abcdef".to_vec(),
        vec![
            Action::ReadFromInner,
            Action::Pending,
            Action::ReadFromInner,
        ],
    );
    let mut p = AsyncPeekable::new(r);
    let mut pre = [0u8; 2];
    peek(&mut p, &mut pre).unwrap();
    assert_eq!(&pre, b"ab");
    let mut out = Vec::new();
    let n = peek_to_end(&mut p, &mut out).unwrap();
    assert_eq!(n, 6);
    assert_eq!(&out, b"abcdef");
}

#[test]
fn tokio_io_peek_to_string_with_mid_codepoint_peek_buffer() {
    let data = "héllo".as_bytes().to_vec();
    let r = FlakyReader::new(data, vec![Action::ReadFromInner]);
    let mut p = AsyncPeekable::new(r);
    let mut pre = [0u8; 2];
    peek_exact(&mut p, &mut pre).unwrap();
    assert_eq!(&pre, &[0x68, 0xC3]);
    let mut s = String::new();
    let n = peek_to_string(&mut p, &mut s).unwrap();
    assert_eq!(s, "héllo");
    assert_eq!(n, "héllo".len());
}

#[test]
fn tokio_peek_does_not_advance_reader_when_buffer_extend_fails() {
    let reader = Cursor::new(vec![1u8, 2, 3, 4]);
    let mut p: AsyncPeekable<_, BoundedBuffer<0>> = reader.peekable_with_buffer();
    let mut buf = [0u8; 2];
    let err = peek(&mut p, &mut buf).expect_err("must fail");
    assert_eq!(err.kind(), ErrorKind::OutOfMemory);
    let (_, reader) = p.get_mut();
    let mut out = Vec::new();
    Read::read_to_end(reader, &mut out).unwrap();
    assert_eq!(out, [1, 2, 3, 4]);
}

#[test]
fn tokio_peek_exact_does_not_advance_reader_when_buffer_extend_fails() {
    let reader = Cursor::new(vec![1u8, 2, 3, 4]);
    let mut p: AsyncPeekable<_, BoundedBuffer<0>> = reader.peekable_with_buffer();
    let mut buf = [0u8; 4];
    let err = peek_exact(&mut p, &mut buf).expect_err("must fail");
    assert_eq!(err.kind(), ErrorKind::OutOfMemory);
    let (peek_slice, reader) = p.get_mut();
    let have = peek_slice.len();
    let mut out = Vec::new();
    Read::read_to_end(reader, &mut out).unwrap();
    assert_eq!(have + out.len(), 4);
}

#[test]
fn tokio_peek_to_end_preserves_partial_data_on_io_error() {
    let reader = AsyncErroringReader::new(b"hello".to_vec(), 3, ErrorKind::ConnectionReset);
    let mut p = reader.peekable();
    let mut out = Vec::new();
    let err = peek_to_end(&mut p, &mut out).expect_err("io error");
    assert_eq!(err.kind(), ErrorKind::ConnectionReset);
    assert_eq!(out, b"hel");
}

#[test]
fn tokio_peek_to_end_does_not_desync_on_buffer_error() {
    let reader = Cursor::new(b"abcdef".to_vec());
    let mut p: AsyncPeekable<_, BoundedBuffer<2>> = reader.peekable_with_buffer();
    let mut scratch = [0u8; 2];
    assert_eq!(peek(&mut p, &mut scratch).unwrap(), 2);
    let mut out = Vec::new();
    let err = peek_to_end(&mut p, &mut out).expect_err("must fail");
    assert_eq!(err.kind(), ErrorKind::OutOfMemory);
    let (peek_slice, reader) = p.get_mut();
    let have = peek_slice.len();
    let mut tail = Vec::new();
    Read::read_to_end(reader, &mut tail).unwrap();
    assert_eq!(have + tail.len(), 6);
}

#[test]
fn tokio_peek_to_string_preserves_partial_valid_utf8_on_io_error() {
    let reader = AsyncErroringReader::new(b"hello".to_vec(), 3, ErrorKind::ConnectionReset);
    let mut p = reader.peekable();
    let mut out = String::new();
    let err = peek_to_string(&mut p, &mut out).expect_err("io error");
    assert_eq!(err.kind(), ErrorKind::ConnectionReset);
    assert_eq!(out, "hel");
}

#[test]
fn tokio_peek_to_string_leaves_buf_unchanged_when_partial_bytes_are_invalid_utf8() {
    let reader = AsyncErroringReader::new(vec![0xE2, 0x82, 0xAC], 2, ErrorKind::ConnectionReset);
    let mut p = reader.peekable();
    let mut out = String::from("prefix:");
    let err = peek_to_string(&mut p, &mut out).expect_err("io error");
    assert_eq!(err.kind(), ErrorKind::ConnectionReset);
    assert_eq!(out, "prefix:");
}

#[test]
fn tokio_peek_to_string_returns_invalid_data_for_clean_invalid_utf8() {
    let reader = Cursor::new(vec![0xFF, 0xFE]);
    let mut p = reader.peekable();
    let mut out = String::from("prefix:");
    let err = peek_to_string(&mut p, &mut out).expect_err("must fail");
    assert_eq!(err.kind(), ErrorKind::InvalidData);
    assert_eq!(out, "prefix:");
}

#[test]
fn tokio_peek_exact_retries_on_interrupted() {
    let r = FlakyReader::new(
        b"hello".to_vec(),
        vec![Action::Interrupted, Action::ReadFromInner],
    );
    let mut p = AsyncPeekable::from(r);
    let mut b = [0u8; 5];
    peek_exact(&mut p, &mut b).unwrap();
    assert_eq!(&b, b"hello");
}

#[test]
fn tokio_peek_exact_propagates_error() {
    let r = FlakyReader::new(b"hello".to_vec(), vec![Action::OtherErr]);
    let mut p = AsyncPeekable::from(r);
    let mut b = [0u8; 5];
    let err = peek_exact(&mut p, &mut b).unwrap_err();
    assert_eq!(err.kind(), ErrorKind::Other);
}

#[test]
fn tokio_peek_exact_survives_pending_boundary() {
    let r = FlakyReader::new(
        b"hello".to_vec(),
        vec![Action::Pending, Action::ReadFromInner],
    );
    let mut p = AsyncPeekable::from(r);
    let mut b = [0u8; 5];
    peek_exact(&mut p, &mut b).unwrap();
    assert_eq!(&b, b"hello");
}

#[test]
fn tokio_peek_to_end_retries_on_interrupted() {
    let r = FlakyReader::new(
        b"hello".to_vec(),
        vec![
            Action::ReadFromInner,
            Action::Interrupted,
            Action::ReadFromInner,
        ],
    );
    let mut p = AsyncPeekable::from(r);
    let mut out = Vec::new();
    let n = peek_to_end(&mut p, &mut out).unwrap();
    assert_eq!(out, b"hello");
    assert_eq!(n, 5);
}

#[test]
fn tokio_peek_to_end_survives_pending() {
    let r = FlakyReader::new(
        b"hello".to_vec(),
        vec![
            Action::ReadFromInner,
            Action::Pending,
            Action::ReadFromInner,
        ],
    );
    let mut p = AsyncPeekable::from(r);
    let mut out = Vec::new();
    let n = peek_to_end(&mut p, &mut out).unwrap();
    assert_eq!(out, b"hello");
    assert_eq!(n, 5);
}

#[test]
fn tokio_peek_to_string_retries_on_interrupted() {
    let r = FlakyReader::new(
        b"hello".to_vec(),
        vec![
            Action::ReadFromInner,
            Action::Interrupted,
            Action::ReadFromInner,
        ],
    );
    let mut p = AsyncPeekable::from(r);
    let mut out = String::new();
    let n = peek_to_string(&mut p, &mut out).unwrap();
    assert_eq!(out, "hello");
    assert_eq!(n, 5);
}

#[test]
fn tokio_peek_to_string_survives_pending() {
    let r = FlakyReader::new(
        b"hello".to_vec(),
        vec![
            Action::ReadFromInner,
            Action::Pending,
            Action::ReadFromInner,
        ],
    );
    let mut p = AsyncPeekable::from(r);
    let mut out = String::new();
    let n = peek_to_string(&mut p, &mut out).unwrap();
    assert_eq!(out, "hello");
    assert_eq!(n, 5);
}

#[test]
fn tokio_peek_to_string_buffer_resize_fails_preserves_partial_utf8() {
    let reader = Cursor::new(b"hello".to_vec());
    let mut p: AsyncPeekable<_, BoundedBuffer<2>> = reader.peekable_with_capacity_and_buffer(2);
    let mut scratch = [0u8; 2];
    assert_eq!(peek(&mut p, &mut scratch).unwrap(), 2);
    let mut out = String::from("prefix:");
    let err = peek_to_string(&mut p, &mut out).expect_err("must fail");
    assert_eq!(err.kind(), ErrorKind::OutOfMemory);
    assert_eq!(out, "prefix:he");
}

#[test]
fn tokio_peek_to_end_succeeds_with_small_cap_when_data_fits() {
    let reader = Cursor::new(b"0123456789".to_vec());
    let mut p: AsyncPeekable<_, BoundedBuffer<100>> = reader.peekable_with_buffer();
    let mut out = Vec::new();
    let n = peek_to_end(&mut p, &mut out).unwrap();
    assert_eq!(n, 10);
    assert_eq!(out, b"0123456789");
}

#[test]
fn tokio_peek_to_string_succeeds_with_small_cap_when_data_fits() {
    let reader = Cursor::new(b"hello".to_vec());
    let mut p: AsyncPeekable<_, BoundedBuffer<100>> = reader.peekable_with_buffer();
    let mut out = String::new();
    let n = peek_to_string(&mut p, &mut out).unwrap();
    assert_eq!(n, 5);
    assert_eq!(out, "hello");
}

#[test]
fn tokio_peek_to_string_preserves_valid_prefix_before_incomplete_utf8_on_io_error() {
    let reader = AsyncErroringReader::new(vec![b'h', 0xE2, 0x82], 3, ErrorKind::ConnectionReset);
    let mut p = reader.peekable();
    let mut out = String::from("prefix:");
    let err = peek_to_string(&mut p, &mut out).expect_err("io error");
    assert_eq!(err.kind(), ErrorKind::ConnectionReset);
    assert_eq!(out, "prefix:h");
}

#[test]
fn tokio_peek_retries_interrupted_from_inner() {
    let r = FlakyReader::new(
        b"hello".to_vec(),
        vec![Action::Interrupted, Action::ReadFromInner],
    );
    let mut p = AsyncPeekable::from(r);
    let mut b = [0u8; 5];
    let n = peek(&mut p, &mut b).unwrap();
    assert_eq!(n, 5);
    assert_eq!(&b, b"hello");
}

#[test]
fn tokio_test_peek_exact_peek_exact_read_exact() {
    let mut peekable = Cursor::new([1, 2, 3, 4, 5, 6, 7, 8, 9]).peekable();
    let mut buf1 = [0; 2];
    peek_exact(&mut peekable, &mut buf1).unwrap();
    assert_eq!(buf1, [1, 2]);

    let mut buf2 = [0; 4];
    peek_exact(&mut peekable, &mut buf2).unwrap();
    assert_eq!(buf2, [1, 2, 3, 4]);

    let mut buf3 = [0; 4];
    read_exact(&mut peekable, &mut buf3).unwrap();
    assert_eq!(buf3, [1, 2, 3, 4]);
}

#[test]
fn tokio_test_peek_exact_peek_exact_read_exact_1() {
    let mut peekable = Cursor::new([1, 2, 3, 4, 5, 6, 7, 8, 9]).peekable_with_buffer::<Vec<u8>>();
    let mut buf1 = [0; 2];
    peek_exact(&mut peekable, &mut buf1).unwrap();
    assert_eq!(buf1, [1, 2]);

    let mut buf2 = [0; 4];
    peek_exact(&mut peekable, &mut buf2).unwrap();
    assert_eq!(buf2, [1, 2, 3, 4]);

    let mut buf3 = [0; 4];
    read_exact(&mut peekable, &mut buf3).unwrap();
    assert_eq!(buf3, [1, 2, 3, 4]);
}

#[test]
fn tokio_test_peek_exact_peek_exact_read_exact_2() {
    let mut peekable =
        Cursor::new([1, 2, 3, 4, 5, 6, 7, 8, 9]).peekable_with_capacity_and_buffer::<Vec<u8>>(24);
    let mut buf1 = [0; 2];
    peek_exact(&mut peekable, &mut buf1).unwrap();
    assert_eq!(buf1, [1, 2]);

    let mut buf2 = [0; 4];
    peek_exact(&mut peekable, &mut buf2).unwrap();
    assert_eq!(buf2, [1, 2, 3, 4]);

    let mut buf3 = [0; 4];
    read_exact(&mut peekable, &mut buf3).unwrap();
    assert_eq!(buf3, [1, 2, 3, 4]);
}

#[test]
fn bug1_poll_peek_no_double_put_on_pending() {
    let r = FlakyReader::new(
        b"hello".to_vec(),
        vec![
            Action::ReadFromInner,
            Action::Pending,
            Action::ReadFromInner,
        ],
    );
    let mut p = AsyncPeekable::from(r);

    let mut b = [0u8; 2];
    peek(&mut p, &mut b).unwrap();
    assert_eq!(&b, b"he");

    let mut out = [0u8; 5];
    let mut buf = ReadBuf::new(&mut out);
    let _ = poll_peek(&mut p, &mut buf);
    assert!(buf.filled().len() <= 2, "double-put: {:?}", buf.filled());
}

#[test]
fn read_delivers_buffered_bytes_then_surfaces_inner_err() {
    let r = FlakyReader::new(
        b"hello".to_vec(),
        vec![
            Action::ReadFromInner,
            Action::OtherErr,
            Action::OtherErr,
        ],
    );
    let mut p = AsyncPeekable::from(r);

    let mut b = [0u8; 3];
    peek(&mut p, &mut b).unwrap();
    assert_eq!(&b, b"hel");

    let mut out = [0u8; 5];
    let mut buf = ReadBuf::new(&mut out);
    match poll_read(&mut p, &mut buf) {
        Poll::Ready(Ok(())) => {
            assert_eq!(buf.filled(), b"hel");
        }
        other => panic!("unexpected: {:?}", other),
    }

    let mut out = [0u8; 5];
    let mut buf = ReadBuf::new(&mut out);
    match poll_read(&mut p, &mut buf) {
        Poll::Ready(Err(e)) => assert_eq!(e.kind(), ErrorKind::Other),
        other => panic!("unexpected: {:?}", other),
    }
}

#[test]
fn poll_peek_error_rolls_back_filled() {
    let r = FlakyReader::new(
        b"hello".to_vec(),
        vec![Action::ReadFromInner, Action::OtherErr],
    );
    let mut p = AsyncPeekable::from(r);

    let mut b = [0u8; 2];
    peek(&mut p, &mut b).unwrap();
    assert_eq!(&b, b"he");

    let mut out = [0u8; 5];
    let mut buf = ReadBuf::new(&mut out);
    match poll_peek(&mut p, &mut buf) {
        Poll::Ready(Err(e)) => assert_eq!(e.kind(), ErrorKind::Other),
        other => panic!("unexpected: {:?}", other),
    }
    assert_eq!(buf.filled().len(), 0);
}

#[test]
fn tokio_io_fill_peek_buf_pending_truncates_buffer() {
    let r = FlakyReader::new(b"".to_vec(), vec![Action::Pending]);
    let mut p = AsyncPeekable::with_capacity(r, 8);

    match poll(&mut p.fill_peek_buf()) {
        Poll::Pending => {}
        other => panic!("unexpected: {:?}", other),
    }
    assert_eq!(Buffer::len(&p.consume()), 0);
}

/// A reader that delivers once, and then fails.
struct ErrorAfterFirstRead {
    state: u8,
}

impl AsyncRead for ErrorAfterFirstRead {
    fn poll_read(
        mut self: Pin<&mut Self>,
        _cx: &mut Context<'_>,
        buf: &mut ReadBuf<'_>,
    ) -> Poll<io::Result<()>> {
        match self.state {
            0 => {
                buf.put_slice(b"ab");
                self.state = 1;
                Poll::Ready(Ok(()))
            }
            _ => Poll::Ready(Err(io::Error::new(ErrorKind::Other, "boom"))),
        }
    }
}

#[test]
fn peek_to_end_keeps_partial_data_on_error() {
    let r = ErrorAfterFirstRead { state: 0 };
    let mut p = AsyncPeekable::new(r);

    let mut pre = [0u8; 2];
    peek_exact(&mut p, &mut pre).unwrap();
    assert_eq!(&pre, b"ab");

    let mut out = b"seed".to_vec();
    let err = peek_to_end(&mut p, &mut out).unwrap_err();
    assert_eq!(err.kind(), ErrorKind::Other);

    assert!(out.starts_with(b"seed"));
    assert!(out.len() > 4);
    assert_eq!(out, b"seedab");
}

#[test]
fn tokio_peek_converts_wouldblock_to_pending_no_buffer() {
    let r = FlakyReader::new(b"hello".to_vec(), vec![Action::WouldBlock]);
    let mut p = AsyncPeekable::from(r);
    let mut out = [0u8; 5];
    match poll(&mut p.peek(&mut out)) {
        Poll::Pending => {}
        other => panic!("unexpected: {:?}", other),
    }
}

#[test]
fn tokio_peek_converts_wouldblock_to_partial_with_buffer() {
    let r = FlakyReader::new(
        b"hello".to_vec(),
        vec![Action::ReadFromInner, Action::WouldBlock],
    );
    let mut p = AsyncPeekable::from(r);
    let mut b = [0u8; 2];
    peek(&mut p, &mut b).unwrap();
    assert_eq!(&b, b"he");

    let mut out = [0u8; 5];
    let mut buf = ReadBuf::new(&mut out);
    match poll_peek(&mut p, &mut buf) {
        Poll::Ready(Ok(())) => {
            assert_eq!(buf.filled(), b"he");
        }
        other => panic!("unexpected: {:?}", other),
    }
}

#[test]
fn tokio_read_makes_do_with_what_was_peeked_when_not_ready() {
    let r = FlakyReader::new(
        b"hello".to_vec(),
        vec![Action::ReadFromInner, Action::Pending],
    );
    let mut p = AsyncPeekable::from(r);
    peek(&mut p, &mut [0u8; 3]).unwrap();
    let mut out = [0u8; 5];
    assert_eq!(read(&mut p, &mut out).unwrap(), 3);
    assert_eq!(&out[..3], b"hel");
    assert!(p.get_ref().0.is_empty());
}

#[test]
fn tokio_peek_buf_asks_nothing_of_the_reader_without_room() {
    let r = FlakyReader::new(b"hello".to_vec(), vec![Action::OtherErr]);
    let mut p = AsyncPeekable::from(r);
    assert_eq!(run(p.peek_buf(&mut [])).unwrap(), 0);
    assert_eq!(p.get_ref().1.call.load(Ordering::SeqCst), 0);
    assert!(run(p.peek(&mut [])).is_err());
    assert_eq!(p.get_ref().1.call.load(Ordering::SeqCst), 1);
}

#[test]
fn tokio_eof_is_unexpected_eof() {
    let error = peekable::tokio::eof();
    assert_eq!(error.kind(), ErrorKind::UnexpectedEof);
    assert_eq!(error.to_string(), "early eof");
}

#[test]
fn tokio_peek_buffers_have_room_for_a_kilobyte_unless_told_otherwise() {
    let (buffer, _) = AsyncPeekable::new(Cursor::new([1, 2, 3, 4])).into_components();
    assert!(buffer.is_empty());
    assert_eq!(buffer.capacity(), 1024);
    let (buffer, _) = AsyncPeekable::from(Cursor::new([1])).into_components();
    assert_eq!(buffer.capacity(), 1024);
    let (buffer, _) = Cursor::new([1]).peekable().into_components();
    assert_eq!(buffer.capacity(), 1024);

    let p: AsyncPeekable<_, Vec<u8>> = AsyncPeekable::with_buffer(Cursor::new([1]));
    assert!(p.into_components().0.capacity() >= 1024);
    let p = Cursor::new([1]).peekable_with_buffer::<TinyBuffer>();
    assert!(p.into_components().0.capacity() >= 1024);

    let mut p = AsyncPeekable::new(Cursor::new([1]));
    assert_eq!(p.consume().capacity(), 1024);
    assert_eq!(p.into_components().0.capacity(), 1024);
}

#[test]
fn tokio_invalid_text_is_reported_with_the_place_where_it_begins() {
    let mut p = AsyncPeekable::from(Cursor::new(b"ab\xFFcd".to_vec()));
    let mut out = String::new();
    let err = peek_to_string(&mut p, &mut out).unwrap_err();
    assert_eq!(err.kind(), ErrorKind::InvalidData);
    let cause = err.get_ref().unwrap().downcast_ref::<std::str::Utf8Error>();
    assert_eq!(cause.unwrap().valid_up_to(), 2);
    assert_eq!(out, "");
}
