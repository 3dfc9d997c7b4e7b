//! The byte-stream capability traits and the error type shared by the
//! copy and hash operations.

use vstd::prelude::*;

verus! {

/// Which stage of a copy or range-hash operation failed.
///
/// Every operation either returns a value or one of these errors; nothing
/// is retried and no partial result is reported.
#[derive(Clone, Copy, Debug, PartialEq, Eq, Structural)]
pub enum IoError {
    /// The source could not establish the requested absolute position.
    SeekFailed,
    /// The source held fewer bytes than the exact count requested.
    ShortRead,
    /// A read failed for a reason other than exhaustion.
    ReadFailed,
    /// The sink did not accept the full chunk.
    WriteFailed,
}

/// A source of bytes with an absolute read cursor.
///
/// A source is modelled by the full byte contents it can deliver
/// (`data`), the current cursor position (`cursor`), and a `reliable`
/// flag. A reliable source is one whose seeks always succeed and whose
/// in-bounds reads always succeed — an in-memory buffer, for instance;
/// a source backed by fallible I/O is not reliable, and its operations
/// may fail at any time.
pub trait ByteSource {
    /// The complete contents of the source, independent of the cursor.
    spec fn data(&self) -> Seq<u8>;

    /// The current read position, measured from the start of `data`.
    /// A cursor may sit beyond the end of the data; every read from
    /// there fails short.
    spec fn cursor(&self) -> nat;

    /// Whether seeks and in-bounds reads on this source always succeed.
    spec fn reliable(&self) -> bool;

    /// Read exactly `n` bytes at the cursor, advancing it past them.
    ///
    /// A successful read returns precisely the `n` bytes of `data` that
    /// start at the cursor. A read that would run past the end of the
    /// data must fail, and must report the exhaustion as `ShortRead`;
    /// other failures may report any error, but never deliver bytes and
    /// never move the cursor backwards or change the data.
    fn read_exact(&mut self, n: usize) -> (r: Result<Vec<u8>, IoError>)
        ensures
            final(self).data() == old(self).data(),
            final(self).reliable() == old(self).reliable(),
            old(self).cursor() <= final(self).cursor(),
            r matches Ok(bytes) ==> ({
                &&& old(self).cursor() + n <= old(self).data().len()
                &&& bytes@ == old(self).data().subrange(
                        old(self).cursor() as int,
                        old(self).cursor() + n,
                    )
                &&& final(self).cursor() == old(self).cursor() + n
            }),
            old(self).reliable() && old(self).cursor() + n <= old(self).data().len() ==> r is Ok,
            r is Err && old(self).cursor() + n > old(self).data().len() ==> r == Err::<
                Vec<u8>,
                IoError,
            >(IoError::ShortRead),
    ;

    /// Move the cursor to the absolute position `pos`.
    ///
    /// Seeking never changes the data. Seeking beyond the end of the
    /// data is allowed; reads from there fail short. A reliable source
    /// never fails to seek.
    fn seek(&mut self, pos: u64) -> (r: Result<(), IoError>)
        ensures
            final(self).data() == old(self).data(),
            final(self).reliable() == old(self).reliable(),
            r is Ok ==> final(self).cursor() == pos as nat,
            old(self).reliable() ==> r is Ok,
    ;
}

/// A destination that accepts chunks of bytes in order.
///
/// A sink is modelled by the sequence of chunks it has accepted so far
/// (`sent`) and a `reliable` flag. A reliable sink never rejects a
/// chunk — a hash accumulator, for instance; a sink backed by fallible
/// I/O is not reliable.
pub trait ByteSink {
    /// The chunks this sink has accepted, in order of arrival.
    spec fn sent(&self) -> Seq<Seq<u8>>;

    /// Whether writes to this sink always succeed.
    spec fn reliable(&self) -> bool;

    /// Accept the whole of `buf` as one chunk, or fail without
    /// recording it.
    fn write(&mut self, buf: &[u8]) -> (r: Result<(), IoError>)
        ensures
            final(self).reliable() == old(self).reliable(),
            r is Ok ==> final(self).sent() == old(self).sent().push(buf@),
            r is Err ==> final(self).sent() == old(self).sent(),
            old(self).reliable() ==> r is Ok,
    ;

    /// Push any buffered bytes through. The model has no buffering, so
    /// a flush never changes what has been accepted.
    fn flush(&mut self) -> (r: Result<(), IoError>)
        ensures
            final(self).sent() == old(self).sent(),
            final(self).reliable() == old(self).reliable(),
            old(self).reliable() ==> r is Ok,
    ;
}

} // verus!
