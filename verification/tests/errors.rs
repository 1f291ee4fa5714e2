//! What errors mean to an operation.
use std::io::{Error, ErrorKind};
use std::str::Utf8Error;

use peekable::attempt::{Attempt, Prepared, Settled};
use peekable::error::{ErrorClass, PeekError};
use peekable::{future, tokio, Peekable};

fn error(kind: ErrorKind) -> Error {
    Error::new(kind, "synthetic")
}

#[test]
fn outcomes_are_told_apart_by_kind() {
    assert!(matches!(Attempt::from_result(Ok(3)), Attempt::Ready(3)));
    assert!(matches!(
        Attempt::from_result(Err(error(ErrorKind::Interrupted))),
        Attempt::Interrupted(_)
    ));
    assert!(matches!(
        Attempt::from_result(Err(error(ErrorKind::WouldBlock))),
        Attempt::WouldBlock(_)
    ));
    for kind in [
        ErrorKind::UnexpectedEof,
        ErrorKind::InvalidData,
        ErrorKind::ConnectionReset,
        ErrorKind::Other,
    ] {
        match Attempt::from_result(Err(error(kind))) {
            Attempt::Failed(e) => assert_eq!(e.kind(), kind),
            _ => panic!("nothing else can be made of it"),
        }
    }
}

#[test]
fn the_class_decides_whatever_the_error_says() {
    assert!(matches!(
        Attempt::from_error(error(ErrorKind::Other), ErrorClass::Interrupted),
        Attempt::Interrupted(_)
    ));
    assert!(matches!(
        Attempt::from_error(error(ErrorKind::Other), ErrorClass::WouldBlock),
        Attempt::WouldBlock(_)
    ));
    assert!(matches!(
        Attempt::from_error(error(ErrorKind::Interrupted), ErrorClass::Other),
        Attempt::Failed(_)
    ));
}

/// The error for bytes that are not text.
fn utf8_error(bytes: &[u8]) -> Utf8Error {
    std::str::from_utf8(bytes).unwrap_err()
}

#[test]
fn failures_of_asynchronous_readers_say_where_the_text_ends() {
    for into_io in [future::into_io, tokio::into_io] {
        let e = into_io(PeekError::InvalidUtf8(utf8_error(b"ab\xFF")));
        assert_eq!(e.kind(), ErrorKind::InvalidData);
        let cause = e.get_ref().unwrap().downcast_ref::<Utf8Error>().unwrap();
        assert_eq!(cause.valid_up_to(), 2);
        assert_eq!(e.to_string(), utf8_error(b"ab\xFF").to_string());
        let e = into_io(PeekError::Io(error(ErrorKind::ConnectionReset)));
        assert_eq!(e.kind(), ErrorKind::ConnectionReset);
        assert_eq!(e.to_string(), "synthetic");
    }

    let e = future::into_io(PeekError::UnexpectedEof);
    assert_eq!(e.kind(), ErrorKind::UnexpectedEof);
    assert!(e.get_ref().is_none());
    let e = tokio::into_io(PeekError::UnexpectedEof);
    assert_eq!(e.kind(), ErrorKind::UnexpectedEof);
    assert_eq!(e.to_string(), "early eof");
}

#[test]
fn text_that_ends_too_early_is_rejected_with_the_place_where_it_does() {
    let mut p = Peekable::new(());
    let mut out = String::new();
    let mut op = p.peek_to_string(&mut out);
    assert!(matches!(op.prepare(), Prepared::Read));
    op.lend().1[..3].copy_from_slice(&[b'h', 0xE2, 0x82]);
    assert!(matches!(op.settle(Attempt::Ready(3)), Settled::Again));
    assert!(matches!(op.prepare(), Prepared::Read));
    let expected = utf8_error(&[b'h', 0xE2, 0x82]);
    assert!(matches!(
        op.settle(Attempt::Ready(0)),
        Settled::Done(Err(PeekError::InvalidUtf8(e))) if e == expected
    ));
    assert_eq!(out, "");
}

#[test]
fn failures_turn_into_fitting_io_errors() {
    let e = PeekError::UnexpectedEof.into_io();
    assert_eq!(e.kind(), ErrorKind::UnexpectedEof);
    assert_eq!(e.to_string(), Error::from(ErrorKind::UnexpectedEof).to_string());
    assert!(e.get_ref().is_none());
    let e = PeekError::InvalidUtf8(utf8_error(b"ab\xFF")).into_io();
    assert_eq!(e.kind(), ErrorKind::InvalidData);
    assert_eq!(e.to_string(), "stream did not contain valid UTF-8");
    let e = PeekError::Io(error(ErrorKind::ConnectionReset)).into_io();
    assert_eq!(e.kind(), ErrorKind::ConnectionReset);
    assert_eq!(e.to_string(), "synthetic");
}

/// Has the second of two reads of `hé?` fail, where `?` is a sequence that breaks
/// off, and returns what is kept.
fn kept(keep_valid_prefix: bool) -> String {
    let mut p = Peekable::new(());
    let mut out = String::from(":");
    let mut op = p.peek_to_string(&mut out);
    op.keep_valid_prefix = keep_valid_prefix;
    assert!(matches!(op.prepare(), Prepared::Read));
    op.lend().1[..5].copy_from_slice(&[b'h', 0xC3, 0xA9, 0xE2, 0x82]);
    assert!(matches!(op.settle(Attempt::Ready(5)), Settled::Again));
    assert!(matches!(op.prepare(), Prepared::Read));
    let failure = Attempt::from_result(Err(error(ErrorKind::Other)));
    assert!(matches!(op.settle(failure), Settled::Done(Err(PeekError::Io(_)))));
    out
}

#[test]
fn the_longest_text_is_kept_or_none() {
    assert_eq!(kept(true), ":hé");
    assert_eq!(kept(false), ":");
}

#[test]
fn hopeless_bytes_are_rejected_without_reading() {
    for (bytes, hopeless) in [
        (&[b'a', 0xFF][..], true),
        (&[0xE2, 0x28][..], true),
        (&[0xED, 0xA0][..], true),
        (&[0xC0][..], true),
        (&[b'a', 0xE2, 0x82][..], false),
        (&[0xF0, 0x9F, 0x98][..], false),
        (&[][..], false),
    ] {
        let mut p = Peekable::new(());
        let mut buf = vec![0u8; bytes.len()];
        let mut op = p.peek(&mut buf);
        if matches!(op.prepare(), Prepared::Read) {
            op.lend().1.copy_from_slice(bytes);
            op.settle(Attempt::Ready(bytes.len()));
        }
        let mut out = String::new();
        let rejected = matches!(
            p.peek_to_string(&mut out).prepare(),
            Prepared::Done(Err(PeekError::InvalidUtf8(e))) if e == utf8_error(bytes)
        );
        assert_eq!(rejected, hopeless, "{bytes:?}");
        assert_eq!(out, "");
    }
}

#[test]
fn a_failed_read_hands_over_the_peeked_bytes_only_in_the_manner_of_tokio() {
    let mut out = [0u8; 4];

    let mut p = future::AsyncPeekable::new(());
    let mut op = p.peek(&mut out[..2]);
    assert!(matches!(op.prepare(), Prepared::Read));
    op.lend().1.copy_from_slice(b"ab");
    op.settle(Attempt::Ready(2));
    let mut op = p.read(&mut out);
    assert!(matches!(op.prepare(), Prepared::Read));
    let failure = Attempt::from_result(Err(error(ErrorKind::Other)));
    assert!(matches!(op.settle(failure), Settled::Done(Err(_))));
    assert_eq!(p.get_ref().0, b"ab");

    let mut p = tokio::AsyncPeekable::new(());
    let mut op = p.peek(&mut out[..2]);
    assert!(matches!(op.prepare(), Prepared::Read));
    op.lend().1.copy_from_slice(b"ab");
    op.settle(Attempt::Ready(2));
    let mut op = p.read(&mut out);
    assert!(matches!(op.prepare(), Prepared::Read));
    let failure = Attempt::from_result(Err(error(ErrorKind::Other)));
    assert!(matches!(op.settle(failure), Settled::Done(Ok(2))));
    assert!(p.get_ref().0.is_empty());
}
