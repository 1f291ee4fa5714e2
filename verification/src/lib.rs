//! Peekable readers.
//!
//! A peekable reader lets its user look at the bytes that are to come without
//! taking them out of the stream. Peeked bytes are kept in a peek buffer, and
//! reads get them before anything else.
//!
//! - [`Peekable`] is for blocking readers, [`future::AsyncPeekable`] and
//!   [`tokio::AsyncPeekable`] are for the two families of asynchronous ones.
//! - [`buffer`] has the trait that a peek buffer implements, and buffers.
//! - [`ops`] has the operations. None of them reads by itself: an operation says
//!   when it wants its reader to be read from, lends out the reader and the bytes
//!   to read into, and is then told how that went (see [`attempt`]).
//! - [`runs`] states what each operation is for, over all the reads that it takes.
//! - [`stream`] states what the operations have in common: no byte is lost, made
//!   up, repeated or moved.

pub mod attempt;
pub mod buffer;
pub mod error;
pub mod future;
pub mod growth;
pub mod ops;
pub mod runs;
pub mod stream;
mod sync;
pub mod text;
pub mod tokio;

pub use sync::{DefaultBuffer, PeekExt, Peekable};
