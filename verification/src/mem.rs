//! In-memory byte streams: a seekable source over a byte buffer and a
//! sink that records every chunk it accepts. Both are reliable — their
//! operations never fail except for reading past the end of the data.

use crate::stream::ByteSink;
use crate::stream::ByteSource;
use crate::stream::IoError;
use vstd::prelude::*;

verus! {

/// A reliable, seekable byte source backed by an in-memory buffer.
///
/// The cursor starts at the beginning and may be seeked anywhere,
/// including past the end of the buffer; reads from there fail short.
pub struct MemReader {
    data: Vec<u8>,
    pos: u64,
}

impl MemReader {
    /// A source over `data`, with the cursor at the start.
    pub fn new(data: Vec<u8>) -> (r: Self)
        ensures
            r.data() == data@,
            r.cursor() == 0,
            r.reliable(),
    {
        MemReader { data, pos: 0 }
    }

    /// The current cursor position.
    pub fn position(&self) -> (r: u64)
        ensures
            r as nat == self.cursor(),
    {
        self.pos
    }
}

impl ByteSource for MemReader {
    closed spec fn data(&self) -> Seq<u8> {
        self.data@
    }

    closed spec fn cursor(&self) -> nat {
        self.pos as nat
    }

    open spec fn reliable(&self) -> bool {
        true
    }

    fn read_exact(&mut self, n: usize) -> (r: Result<Vec<u8>, IoError>) {
        let len_u64 = self.data.len() as u64;
        if self.pos <= len_u64 && n as u64 <= len_u64 - self.pos {
            let start = self.pos as usize;
            let mut out: Vec<u8> = Vec::new();
            proof {
                assert(out@ =~= self.data@.subrange(start as int, start as int));
            }
            let mut i: usize = 0;
            while i < n
                invariant
                    i <= n,
                    start + n <= self.data.len(),
                    out@ == self.data@.subrange(start as int, start + i),
                decreases n - i,
            {
                let b = self.data[start + i];
                out.push(b);
                proof {
                    assert(out@ =~= self.data@.subrange(start as int, start + i + 1));
                }
                i = i + 1;
            }
            self.pos = self.pos + n as u64;
            Ok(out)
        } else {
            Err(IoError::ShortRead)
        }
    }

    fn seek(&mut self, pos: u64) -> (r: Result<(), IoError>) {
        self.pos = pos;
        Ok(())
    }
}

/// A reliable byte sink that keeps every chunk it accepts, in order of
/// arrival.
pub struct MemWriter {
    chunks: Vec<Vec<u8>>,
}

impl MemWriter {
    /// A sink that has accepted nothing yet.
    pub fn new() -> (r: Self)
        ensures
            r.sent() == Seq::<Seq<u8>>::empty(),
            r.reliable(),
    {
        let w = MemWriter { chunks: Vec::new() };
        proof {
            assert(w.sent() =~= Seq::<Seq<u8>>::empty());
        }
        w
    }

    /// How many chunks have been accepted.
    pub fn chunk_count(&self) -> (r: usize)
        ensures
            r == self.sent().len(),
    {
        self.chunks.len()
    }

    /// All accepted bytes, in order of arrival: the chunks concatenated.
    pub fn bytes(&self) -> (r: Vec<u8>)
        ensures
            r@ == self.sent().flatten(),
    {
        let mut out: Vec<u8> = Vec::new();
        proof {
            assert(self.sent().take(0) =~= Seq::<Seq<u8>>::empty());
            assert(Seq::<Seq<u8>>::empty().flatten() =~= Seq::<u8>::empty());
        }
        let mut i: usize = 0;
        while i < self.chunks.len()
            invariant
                i <= self.chunks.len(),
                out@ == self.sent().take(i as int).flatten(),
            decreases self.chunks.len() - i,
        {
            let ghost out_pre = out@;
            let chunk_len = self.chunks[i].len();
            let mut j: usize = 0;
            while j < chunk_len
                invariant
                    i < self.chunks.len(),
                    j <= chunk_len,
                    chunk_len == self.chunks@[i as int]@.len(),
                    out@ == out_pre + self.chunks@[i as int]@.take(j as int),
                decreases chunk_len - j,
            {
                let b = self.chunks[i][j];
                out.push(b);
                proof {
                    assert(out@ =~= out_pre + self.chunks@[i as int]@.take(j + 1));
                }
                j = j + 1;
            }
            proof {
                assert(self.chunks@[i as int]@.take(chunk_len as int) =~= self.chunks@[
                    i as int
                ]@);
                assert(self.sent()[i as int] == self.chunks@[i as int]@);
                assert(self.sent().take(i + 1) =~= self.sent().take(i as int).push(
                    self.sent()[i as int],
                ));
                self.sent().take(i as int).lemma_flatten_push(self.sent()[i as int]);
                assert(out@ =~= self.sent().take(i + 1).flatten());
            }
            i = i + 1;
        }
        proof {
            assert(self.sent().take(self.chunks@.len() as int) =~= self.sent());
        }
        out
    }
}

impl ByteSink for MemWriter {
    closed spec fn sent(&self) -> Seq<Seq<u8>> {
        Seq::new(self.chunks@.len(), |i: int| self.chunks@[i]@)
    }

    open spec fn reliable(&self) -> bool {
        true
    }

    fn write(&mut self, buf: &[u8]) -> (r: Result<(), IoError>) {
        let ghost pre = *self;
        let mut copied: Vec<u8> = Vec::new();
        proof {
            assert(copied@ =~= buf@.take(0));
        }
        let mut j: usize = 0;
        while j < buf.len()
            invariant
                j <= buf.len(),
                copied@ == buf@.take(j as int),
            decreases buf.len() - j,
        {
            let b = buf[j];
            copied.push(b);
            proof {
                assert(copied@ =~= buf@.take(j + 1));
            }
            j = j + 1;
        }
        proof {
            assert(copied@ =~= buf@);
        }
        self.chunks.push(copied);
        proof {
            assert(self.sent() =~= pre.sent().push(buf@));
        }
        Ok(())
    }

    fn flush(&mut self) -> (r: Result<(), IoError>) {
        Ok(())
    }
}

} // verus!
