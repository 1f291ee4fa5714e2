# peekable

Readers that can be peeked into: the bytes that are to come can be looked at any
number of times before they are read.

The library is verified with Verus. It does no I/O. Every operation (`peek`,
`peek_exact`, `peek_to_end`, `peek_to_string`, `fill_peek_buf`, `read`) is a state
machine that is driven in three steps:

1. `prepare` makes room, and says whether the operation is complete or wants a
   read;
2. `lend` hands out the reader and the bytes to read into;
3. `settle` is told how the read went, and says whether the operation is complete,
   is to go on, or has to wait.

| Where | What |
| --- | --- |
| `src/sync.rs`, `src/future.rs`, `src/tokio.rs` | the peekable readers |
| `src/ops/` | the operations, and what they have in common |
| `src/buffer.rs`, `src/buffer/` | the trait of a peek buffer, and three buffers |
| `src/growth.rs` | growing a peek buffer by as much as it accepts |
| `src/text.rs` | telling text from other bytes |
| `src/attempt.rs`, `src/error.rs` | what passes between an operation and its driver |
| `src/stream.rs` | no byte is lost, made up, repeated or moved |
| `app/` | the drivers for `std::io`, `futures` and `tokio` |

## What is trusted

The inline buffers are `smallvec::SmallVec<[u8; 64]>` and
`tinyvec::TinyVec<[u8; 16]>`, each method of which is taken at its word, as are
`core::str::from_utf8`, `std::io::Error::kind`, `std::io::Error::new`,
`std::io::Error::from`, `<[T]>::copy_from_slice`, `Vec::drain`, `Vec::capacity`
and `Vec::reserve_exact`.
