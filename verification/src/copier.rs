//! The bounded copy routine: moves an exact number of bytes from a
//! source to a sink in fixed-size chunks, with bounded auxiliary memory.

use crate::stream::ByteSink;
use crate::stream::ByteSource;
use crate::stream::IoError;
use vstd::prelude::*;

verus! {

/// The fixed chunk capacity of the transfer: a copy moves at most this
/// many bytes at a time, whatever the total length.
pub const CHUNK_SIZE: u64 = 1024;

/// The chunks into which the copier splits `data`: full chunks of
/// `CHUNK_SIZE` bytes from the front, then one final shorter chunk for
/// whatever remains, and no chunk at all for empty data.
pub open spec fn chunks_of(data: Seq<u8>) -> Seq<Seq<u8>>
    decreases data.len(),
{
    if data.len() == 0 {
        Seq::empty()
    } else if data.len() >= CHUNK_SIZE {
        seq![data.take(CHUNK_SIZE as int)] + chunks_of(data.skip(CHUNK_SIZE as int))
    } else {
        seq![data]
    }
}

/// Appending one more chunk of bytes to data that so far fills whole
/// chunks extends the chunk split by exactly that chunk.
pub proof fn lemma_chunks_of_append(s: Seq<u8>, c: Seq<u8>)
    requires
        s.len() as int % (CHUNK_SIZE as int) == 0,
        0 < c.len() <= CHUNK_SIZE,
    ensures
        chunks_of(s + c) == chunks_of(s).push(c),
    decreases s.len(),
{
    if s.len() == 0 {
        assert(s + c =~= c);
        if c.len() == CHUNK_SIZE {
            assert(c.take(CHUNK_SIZE as int) =~= c);
            assert(c.skip(CHUNK_SIZE as int).len() == 0);
            assert(chunks_of(c.skip(CHUNK_SIZE as int)) =~= Seq::<Seq<u8>>::empty());
        }
        assert(chunks_of(c) =~~= seq![c]);
        assert(chunks_of(s) =~= Seq::<Seq<u8>>::empty());
        assert(chunks_of(s + c) =~~= chunks_of(s).push(c));
    } else {
        let cs = CHUNK_SIZE as int;
        assert(s.len() >= CHUNK_SIZE);
        assert((s + c).take(cs) =~= s.take(cs));
        assert((s + c).skip(cs) =~= s.skip(cs) + c);
        assert(s.skip(cs).len() as int % cs == 0);
        lemma_chunks_of_append(s.skip(cs), c);
        assert(chunks_of(s + c) =~~= chunks_of(s).push(c));
    }
}

/// Copy exactly `bytes_to_copy` bytes from `reader` to `writer`,
/// starting at the reader's current cursor, in chunks of at most
/// `CHUNK_SIZE` bytes.
///
/// On success the sink has accepted, beyond what it already held,
/// exactly the chunk split of the copied byte window, so the bytes
/// arrive complete and in order; the cursor has advanced by exactly
/// `bytes_to_copy`. Copying zero bytes does nothing and cannot fail.
/// A request that runs past the end of the source's data fails; on a
/// reliable source feeding a reliable sink that failure is precisely
/// the short read, and in-bounds requests always succeed. Any failure
/// aborts the whole copy: the sink may already have accepted a prefix
/// of the bytes, and the cursor stays wherever the last successful
/// read left it.
#[verifier::loop_isolation(false)]
pub fn copy<R: ByteSource, W: ByteSink>(
    reader: &mut R,
    writer: &mut W,
    bytes_to_copy: u64,
) -> (r: Result<(), IoError>)
    ensures
        final(reader).data() == old(reader).data(),
        final(reader).reliable() == old(reader).reliable(),
        final(writer).reliable() == old(writer).reliable(),
        old(reader).cursor() <= final(reader).cursor(),
        r is Ok ==> final(reader).cursor() == old(reader).cursor() + bytes_to_copy,
        r is Ok && bytes_to_copy > 0 ==> ({
            &&& old(reader).cursor() + bytes_to_copy <= old(reader).data().len()
            &&& final(writer).sent() == old(writer).sent() + chunks_of(
                old(reader).data().subrange(
                    old(reader).cursor() as int,
                    old(reader).cursor() + bytes_to_copy,
                ),
            )
        }),
        bytes_to_copy == 0 ==> r is Ok && final(reader).cursor() == old(reader).cursor()
            && final(writer).sent() == old(writer).sent(),
        old(reader).reliable() && old(writer).reliable() && old(reader).cursor() + bytes_to_copy
            <= old(reader).data().len() ==> r is Ok,
        old(reader).reliable() && old(writer).reliable() && bytes_to_copy > 0 && old(
            reader,
        ).cursor() + bytes_to_copy > old(reader).data().len() ==> r == Err::<(), IoError>(
            IoError::ShortRead,
        ),
        bytes_to_copy > 0 && old(reader).cursor() + bytes_to_copy > old(reader).data().len()
            ==> r is Err,
{
    let ghost r0 = *reader;
    let ghost w0 = *writer;
    let mut to_copy: u64 = bytes_to_copy;
    while to_copy >= CHUNK_SIZE
        invariant
            to_copy <= bytes_to_copy,
            (bytes_to_copy - to_copy) % (CHUNK_SIZE as int) == 0,
            reader.data() == r0.data(),
            reader.reliable() == r0.reliable(),
            writer.reliable() == w0.reliable(),
            reader.cursor() == r0.cursor() + (bytes_to_copy - to_copy),
            to_copy == bytes_to_copy ==> writer.sent() == w0.sent(),
            to_copy < bytes_to_copy ==> ({
                &&& r0.cursor() + (bytes_to_copy - to_copy) <= r0.data().len()
                &&& writer.sent() == w0.sent() + chunks_of(
                    r0.data().subrange(
                        r0.cursor() as int,
                        r0.cursor() + (bytes_to_copy - to_copy),
                    ),
                )
            }),
        decreases to_copy,
    {
        let chunk = match reader.read_exact(CHUNK_SIZE as usize) {
            Ok(c) => c,
            Err(e) => {
                return Err(e);
            },
        };
        match writer.write(chunk.as_slice()) {
            Ok(()) => {},
            Err(e) => {
                return Err(e);
            },
        }
        proof {
            let c0 = r0.cursor() as int;
            let done_pre = bytes_to_copy - to_copy;
            let prefix = r0.data().subrange(c0, c0 + done_pre);
            assert(chunk@ == r0.data().subrange(c0 + done_pre, c0 + done_pre + CHUNK_SIZE));
            assert(prefix.len() == done_pre);
            lemma_chunks_of_append(prefix, chunk@);
            assert(prefix + chunk@ =~= r0.data().subrange(c0, c0 + done_pre + CHUNK_SIZE));
            if done_pre == 0 {
                assert(chunks_of(prefix) =~= Seq::<Seq<u8>>::empty());
            }
            assert(writer.sent() =~~= w0.sent() + chunks_of(
                r0.data().subrange(c0, c0 + done_pre + CHUNK_SIZE),
            ));
        }
        to_copy = to_copy - CHUNK_SIZE;
    }
    if to_copy > 0 {
        let n = to_copy as usize;
        let chunk = match reader.read_exact(n) {
            Ok(c) => c,
            Err(e) => {
                return Err(e);
            },
        };
        match writer.write(chunk.as_slice()) {
            Ok(()) => {},
            Err(e) => {
                return Err(e);
            },
        }
        proof {
            let c0 = r0.cursor() as int;
            let done_pre = bytes_to_copy - to_copy;
            let prefix = r0.data().subrange(c0, c0 + done_pre);
            assert(chunk@ == r0.data().subrange(c0 + done_pre, c0 + bytes_to_copy));
            assert(prefix.len() == done_pre);
            lemma_chunks_of_append(prefix, chunk@);
            assert(prefix + chunk@ =~= r0.data().subrange(c0, c0 + bytes_to_copy));
            if done_pre == 0 {
                assert(chunks_of(prefix) =~= Seq::<Seq<u8>>::empty());
            }
            assert(writer.sent() =~~= w0.sent() + chunks_of(
                r0.data().subrange(c0, c0 + bytes_to_copy),
            ));
        }
    }
    Ok(())
}

} // verus!
