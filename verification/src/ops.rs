//! The operations on a peekable reader, as state machines.
mod copy;
mod fill_peek_buf;
mod intake;
mod operation;
mod peek;
mod peek_exact;
mod peek_to_end;
mod peek_to_string;
mod read;
mod vectored;

pub use copy::overlaid;
pub use fill_peek_buf::FillPeekBuf;
pub use intake::Intake;
pub use operation::Operation;
pub use peek::Peek;
pub use peek_exact::PeekExact;
pub use peek_to_end::PeekToEnd;
pub use peek_to_string::PeekToString;
pub use read::PeekedRead;
pub use vectored::{first_non_empty, is_first_non_empty, the_first_comes_before_all_others};
