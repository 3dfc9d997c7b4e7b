//! A streaming byte-copy-and-hash library.
//!
//! The crate offers two pieces: a bounded copy routine that moves an exact
//! number of bytes from a byte source to a byte sink in fixed-size chunks,
//! and a range hasher that seeks a source to an offset, streams a given
//! number of bytes through a 64-bit hash accumulator, and yields the result.
//! The hasher is itself a byte sink, so callers may also feed it directly
//! and finish it by hand.

pub mod copier;
pub mod filehasher;
pub mod laws;
pub mod mem;
pub mod stream;

pub use copier::copy;
pub use filehasher::FileHasher;
pub use mem::MemReader;
pub use mem::MemWriter;
pub use stream::ByteSink;
pub use stream::ByteSource;
pub use stream::IoError;
