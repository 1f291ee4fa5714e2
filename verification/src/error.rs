//! Errors, and what they mean to an operation.
use vstd::prelude::*;

verus! {

/// `std::io::Error`, carried from the place where it arises to the caller.
#[verifier::external_type_specification]
#[verifier::external_body]
pub struct ExIoError(std::io::Error);

/// `core::str::Utf8Error`, carried from the place where it arises to the caller.
#[verifier::external_type_specification]
#[verifier::external_body]
pub struct ExUtf8Error(core::str::Utf8Error);

/// The kinds of I/O error that make a difference here.
#[derive(Clone, Copy, Debug, PartialEq, Eq, Structural)]
pub enum ErrorClass {
    /// The operation was interrupted, and may be tried again.
    Interrupted,
    /// The operation would have had to block.
    WouldBlock,
    /// The stream ended too early.
    UnexpectedEof,
    /// The stream does not hold what it was expected to hold.
    InvalidData,
    /// Anything else.
    Other,
}

/// Which class an error belongs to.
pub uninterp spec fn error_class(error: std::io::Error) -> ErrorClass;

/// `std::io::Error::kind`, with every kind that makes no difference taken for
/// `Other`.
#[verifier::external_body]
pub(crate) fn classify(error: &std::io::Error) -> (class: ErrorClass)
    ensures
        class == error_class(*error),
{
    match error.kind() {
        std::io::ErrorKind::Interrupted => ErrorClass::Interrupted,
        std::io::ErrorKind::WouldBlock => ErrorClass::WouldBlock,
        std::io::ErrorKind::UnexpectedEof => ErrorClass::UnexpectedEof,
        std::io::ErrorKind::InvalidData => ErrorClass::InvalidData,
        _ => ErrorClass::Other,
    }
}

/// What `std::io::Error::new` makes of a kind and a message.
pub uninterp spec fn error_with_message(
    class: ErrorClass,
    message: Seq<char>,
) -> std::io::Error;

/// What `std::io::Error::new` makes of a kind and a `Utf8Error`.
pub uninterp spec fn error_with_cause(
    class: ErrorClass,
    cause: core::str::Utf8Error,
) -> std::io::Error;

/// What `std::io::Error::from` makes of a kind.
pub uninterp spec fn plain_error(class: ErrorClass) -> std::io::Error;

/// `std::io::Error::new`: an error of the given kind, with the message as its
/// inner error.
#[verifier::external_body]
pub(crate) fn new_error(class: ErrorClass, message: &str) -> (error: std::io::Error)
    ensures
        error == error_with_message(class, message@),
        error_class(error) == class,
{
    let kind = match class {
        ErrorClass::Interrupted => std::io::ErrorKind::Interrupted,
        ErrorClass::WouldBlock => std::io::ErrorKind::WouldBlock,
        ErrorClass::UnexpectedEof => std::io::ErrorKind::UnexpectedEof,
        ErrorClass::InvalidData => std::io::ErrorKind::InvalidData,
        ErrorClass::Other => std::io::ErrorKind::Other,
    };
    std::io::Error::new(kind, message)
}

/// `std::io::Error::new`: an error of the given kind, with the `Utf8Error` as its
/// inner error.
#[verifier::external_body]
pub(crate) fn wrap_error(class: ErrorClass, cause: core::str::Utf8Error) -> (error:
    std::io::Error)
    ensures
        error == error_with_cause(class, cause),
        error_class(error) == class,
{
    let kind = match class {
        ErrorClass::Interrupted => std::io::ErrorKind::Interrupted,
        ErrorClass::WouldBlock => std::io::ErrorKind::WouldBlock,
        ErrorClass::UnexpectedEof => std::io::ErrorKind::UnexpectedEof,
        ErrorClass::InvalidData => std::io::ErrorKind::InvalidData,
        ErrorClass::Other => std::io::ErrorKind::Other,
    };
    std::io::Error::new(kind, cause)
}

/// `std::io::Error::from`: an error of the given kind, and nothing else.
#[verifier::external_body]
pub(crate) fn bare_error(class: ErrorClass) -> (error: std::io::Error)
    ensures
        error == plain_error(class),
        error_class(error) == class,
{
    let kind = match class {
        ErrorClass::Interrupted => std::io::ErrorKind::Interrupted,
        ErrorClass::WouldBlock => std::io::ErrorKind::WouldBlock,
        ErrorClass::UnexpectedEof => std::io::ErrorKind::UnexpectedEof,
        ErrorClass::InvalidData => std::io::ErrorKind::InvalidData,
        ErrorClass::Other => std::io::ErrorKind::Other,
    };
    std::io::Error::from(kind)
}

/// Why an operation failed.
#[derive(Debug)]
pub enum PeekError {
    /// The reader failed, or the peek buffer refused to grow.
    Io(std::io::Error),
    /// The stream ended before there were enough bytes.
    UnexpectedEof,
    /// The bytes are not valid UTF-8. The error says from where on.
    InvalidUtf8(core::str::Utf8Error),
}

impl PeekError {
    /// The same as the I/O error of a blocking reader: the error that the reader
    /// or the peek buffer gave, or a new one of the fitting class. One for bytes
    /// that are not valid UTF-8 says so, and no more.
    pub fn into_io(self) -> (error: std::io::Error)
        ensures
            match self {
                PeekError::Io(inner) => error == inner,
                PeekError::UnexpectedEof => {
                    &&& error == plain_error(ErrorClass::UnexpectedEof)
                    &&& error_class(error) == ErrorClass::UnexpectedEof
                },
                PeekError::InvalidUtf8(_) => {
                    &&& error == error_with_message(
                        ErrorClass::InvalidData,
                        "stream did not contain valid UTF-8"@,
                    )
                    &&& error_class(error) == ErrorClass::InvalidData
                },
            },
    {
        match self {
            PeekError::Io(inner) => inner,
            PeekError::UnexpectedEof => bare_error(ErrorClass::UnexpectedEof),
            PeekError::InvalidUtf8(_) => new_error(
                ErrorClass::InvalidData,
                "stream did not contain valid UTF-8",
            ),
        }
    }
}

} // verus!
