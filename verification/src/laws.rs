//! The laws of the library, stated and proved once for all inputs:
//! determinism of range hashing, independence from surrounding bytes,
//! agreement of the two usage modes of the hasher, and the fact that
//! the chunk split loses no bytes.

use crate::copier::chunks_of;
use crate::copier::CHUNK_SIZE;
use crate::filehasher::range_hash;
use std::collections::hash_map::DefaultHasher;
use vstd::prelude::*;
use vstd::std_specs::hash::DefaultHasherAdditionalSpecFns;

verus! {

/// Range hashing is deterministic: the value `FileHasher::hash` yields
/// on a fresh hasher is the pure function `range_hash` of the source
/// bytes and the range, so repeated invocations with identical inputs
/// — on the same instance's source or on fresh copies of it — yield
/// the identical 64-bit value.
pub proof fn lemma_hash_deterministic(data: Seq<u8>, start: int, len: int, h1: u64, h2: u64)
    requires
        h1 == range_hash(data, start, len),
        h2 == range_hash(data, start, len),
    ensures
        h1 == h2,
{
}

/// The hash of a range depends only on the bytes of the selected
/// window: two ranges of equal length that select byte-identical
/// windows — within the same source or different ones, at the same
/// offset or not — hash to the same value.
pub proof fn lemma_hash_depends_only_on_window(
    data1: Seq<u8>,
    start1: int,
    data2: Seq<u8>,
    start2: int,
    len: int,
)
    requires
        0 <= start1,
        0 <= start2,
        0 <= len,
        start1 + len <= data1.len(),
        start2 + len <= data2.len(),
        data1.subrange(start1, start1 + len) == data2.subrange(start2, start2 + len),
    ensures
        range_hash(data1, start1, len) == range_hash(data2, start2, len),
{
}

/// The two usage modes of the hasher agree: hashing a source over its
/// full range feeds the accumulator exactly the chunk split of the
/// data, so it finishes to the same value as a hasher whose sink
/// interface was fed those same chunks directly.
pub proof fn lemma_sink_feed_matches_range_hash(data: Seq<u8>)
    ensures
        DefaultHasher::spec_finish(chunks_of(data)) == range_hash(data, 0, data.len() as int),
{
    assert(data.subrange(0, data.len() as int) =~= data);
}

/// For data of at most one chunk, a single `write` call through the
/// sink interface feeds the accumulator the same lone chunk as `hash`
/// over the data's full range, so the two modes agree write for write.
pub proof fn lemma_single_write_matches_range_hash(data: Seq<u8>)
    requires
        0 < data.len() <= CHUNK_SIZE,
    ensures
        DefaultHasher::spec_finish(Seq::<Seq<u8>>::empty().push(data)) == range_hash(
            data,
            0,
            data.len() as int,
        ),
{
    if data.len() == CHUNK_SIZE {
        assert(data.take(CHUNK_SIZE as int) =~= data);
        assert(data.skip(CHUNK_SIZE as int).len() == 0);
        assert(chunks_of(data.skip(CHUNK_SIZE as int)) =~= Seq::<Seq<u8>>::empty());
    }
    assert(chunks_of(data) =~~= Seq::<Seq<u8>>::empty().push(data));
    lemma_sink_feed_matches_range_hash(data);
}

/// The chunk split loses and reorders nothing: the chunks of any byte
/// sequence, concatenated back in order, are exactly that sequence. A
/// copy that crosses chunk boundaries therefore delivers bytes
/// identical to a copy of the same data in a single pass.
pub proof fn lemma_chunks_flatten(data: Seq<u8>)
    ensures
        chunks_of(data).flatten() == data,
    decreases data.len(),
{
    if data.len() == 0 {
        assert(chunks_of(data) =~= Seq::<Seq<u8>>::empty());
        assert(chunks_of(data).flatten() =~= data);
    } else if data.len() >= CHUNK_SIZE {
        let cs = CHUNK_SIZE as int;
        lemma_chunks_flatten(data.skip(cs));
        let split = seq![data.take(cs)] + chunks_of(data.skip(cs));
        assert(chunks_of(data) == split);
        assert(split.first() == data.take(cs));
        assert(split.drop_first() =~= chunks_of(data.skip(cs)));
        assert(split.flatten() == data.take(cs) + chunks_of(data.skip(cs)).flatten());
        assert(chunks_of(data).flatten() =~= data);
    } else {
        let single = seq![data];
        assert(chunks_of(data) == single);
        assert(single.first() == data);
        assert(single.drop_first() =~= Seq::<Seq<u8>>::empty());
        assert(single.drop_first().flatten() =~= Seq::<u8>::empty());
        assert(chunks_of(data).flatten() =~= data);
    }
}

} // verus!
