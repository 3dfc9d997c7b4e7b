//! The range hasher: a 64-bit hash accumulator that can seek a source,
//! stream a byte range through itself, and yield the finished hash —
//! or be fed directly as a byte sink and finished by hand.

use crate::copier::chunks_of;
use crate::copier::copy;
use crate::stream::ByteSink;
use crate::stream::ByteSource;
use crate::stream::IoError;
use std::collections::hash_map::DefaultHasher;
use std::hash::Hasher;
use vstd::prelude::*;
use vstd::std_specs::hash::DefaultHasherAdditionalSpecFns;

verus! {

/// The 64-bit hash of the byte window `data[start .. start + len]`:
/// the value a fresh `FileHasher` yields for that range. It is a pure
/// function of the window's bytes — the accumulator is fed the window's
/// chunk split, which depends on the selected bytes alone, never on the
/// surrounding data or the absolute offset.
pub open spec fn range_hash(data: Seq<u8>, start: int, len: int) -> u64
    recommends
        0 <= start,
        0 <= len,
        start + len <= data.len(),
{
    DefaultHasher::spec_finish(chunks_of(data.subrange(start, start + len)))
}

/// Relies on the standard library's `DefaultHasher::clone`, a derived
/// `Clone`: the clone duplicates the hasher, state and all, so it holds
/// the same accumulated chunks as the original.
pub assume_specification[ <DefaultHasher as Clone>::clone ](v: &DefaultHasher) -> (r:
    DefaultHasher)
    ensures
        r@ == v@,
;

/// A 64-bit non-cryptographic range hasher.
///
/// It owns one hash accumulator, created empty. Its view is the
/// accumulator's state: the sequence of byte chunks fed so far. Bytes
/// reach the accumulator either through `hash`, which streams a byte
/// range of a source through the hasher, or directly through the
/// `ByteSink` interface; `finish` consumes the hasher and yields the
/// accumulated value.
#[derive(Debug, Clone)]
pub struct FileHasher {
    hasher: DefaultHasher,
}

impl View for FileHasher {
    type V = Seq<Seq<u8>>;

    closed spec fn view(&self) -> Seq<Seq<u8>> {
        self.hasher@
    }
}

impl FileHasher {
    /// A hasher with a fresh, empty accumulator. Cannot fail.
    pub fn new() -> (r: Self)
        ensures
            r@ == Seq::<Seq<u8>>::empty(),
    {
        FileHasher { hasher: DefaultHasher::new() }
    }

    /// Seek `reader` to `from_byte`, stream exactly `length` bytes from
    /// there into this hasher, and return the finished 64-bit value.
    ///
    /// On success the returned value is determined by the accumulator's
    /// prior state and the bytes of the selected window alone; on a
    /// hasher that was fresh it is exactly `range_hash` of the window.
    /// A range that runs past the end of the source's data fails — as
    /// the short read, when the source is reliable — and yields no
    /// value; on a reliable source every in-bounds range succeeds. Seek
    /// or read failures of an unreliable source propagate unchanged.
    pub fn hash<R: ByteSource>(
        &mut self,
        reader: &mut R,
        from_byte: u64,
        length: u64,
    ) -> (r: Result<u64, IoError>)
        ensures
            final(reader).data() == old(reader).data(),
            final(reader).reliable() == old(reader).reliable(),
            r is Ok && length > 0 ==> ({
                &&& from_byte + length <= old(reader).data().len()
                &&& final(self)@ == old(self)@ + chunks_of(
                    old(reader).data().subrange(from_byte as int, from_byte + length),
                )
                &&& final(reader).cursor() == from_byte + length
            }),
            r is Ok && length == 0 ==> final(self)@ == old(self)@ && final(reader).cursor()
                == from_byte as nat,
            r matches Ok(h) ==> h == DefaultHasher::spec_finish(final(self)@),
            r matches Ok(h) ==> ((old(self)@ == Seq::<Seq<u8>>::empty() && length > 0) ==> h
                == range_hash(old(reader).data(), from_byte as int, length as int)),
            old(reader).reliable() && (length == 0 || from_byte + length <= old(
                reader,
            ).data().len()) ==> r is Ok,
            old(reader).reliable() && length > 0 && from_byte + length > old(
                reader,
            ).data().len() ==> r == Err::<u64, IoError>(IoError::ShortRead),
            length > 0 && from_byte + length > old(reader).data().len() ==> r is Err,
    {
        match reader.seek(from_byte) {
            Ok(()) => {},
            Err(e) => {
                return Err(e);
            },
        }
        match copy(reader, self, length) {
            Ok(()) => {},
            Err(e) => {
                return Err(e);
            },
        }
        proof {
            if length > 0 {
                assert(Seq::<Seq<u8>>::empty() + chunks_of(
                    old(reader).data().subrange(from_byte as int, from_byte + length),
                ) =~= chunks_of(
                    old(reader).data().subrange(from_byte as int, from_byte + length),
                ));
            }
        }
        Ok(self.hasher.finish())
    }

    /// Consume the hasher and return the accumulated 64-bit value, for
    /// callers that fed bytes through the sink interface themselves.
    /// Cannot fail.
    pub fn finish(self) -> (r: u64)
        ensures
            r == DefaultHasher::spec_finish(self@),
    {
        self.hasher.finish()
    }
}

impl ByteSink for FileHasher {
    closed spec fn sent(&self) -> Seq<Seq<u8>> {
        self.hasher@
    }

    open spec fn reliable(&self) -> bool {
        true
    }

    /// Feed one chunk of bytes to the accumulator. Always succeeds and
    /// always accepts the whole chunk.
    fn write(&mut self, buf: &[u8]) -> (r: Result<(), IoError>) {
        self.hasher.write(buf);
        Ok(())
    }

    /// Nothing is buffered, so flushing does nothing and always
    /// succeeds.
    fn flush(&mut self) -> (r: Result<(), IoError>) {
        Ok(())
    }
}

impl Default for FileHasher {
    /// The same fresh hasher that `new` yields.
    fn default() -> (r: Self)
        ensures
            r@ == Seq::<Seq<u8>>::empty(),
    {
        FileHasher::new()
    }
}

} // verus!
