//! A growable byte store with a cursor.

use vstd::prelude::*;
use vstd::slice::slice_subrange;
use vstd::utf8::{valid_utf8, decode_utf8};
use core::str::Utf8Error;
use crate::lexer::text::{lossy_string, text};

verus! {

/// `bytes` with `inserted` put in before offset `at`.
pub open spec fn splice(bytes: Seq<u8>, at: int, inserted: Seq<u8>) -> Seq<u8> {
    bytes.subrange(0, at) + inserted + bytes.subrange(at, bytes.len() as int)
}

/// `bytes` without the `count` bytes that start at offset `at`.
pub open spec fn cut(bytes: Seq<u8>, at: int, count: int) -> Seq<u8> {
    bytes.subrange(0, at) + bytes.subrange(at + count, bytes.len() as int)
}

/// The smaller of two offsets.
pub open spec fn min(a: int, b: int) -> int {
    if a <= b {
        a
    } else {
        b
    }
}

/// The bytes from offset `start` up to offset `end`, both taken no further
/// than the end of `bytes`, and `start` no further than `end`.
pub open spec fn slice_of(bytes: Seq<u8>, start: int, end: int) -> Seq<u8> {
    let stop = min(end, bytes.len() as int);
    bytes.subrange(min(start, stop), stop)
}

/// Bytes with a cursor into them. New bytes are spliced in at the cursor, bytes
/// are removed from the cursor on, and reading returns the byte under the
/// cursor and moves the cursor one to the right.
pub struct DynamicByteBuffer {
    v: Vec<u8>,
    idx: usize,
}

impl View for DynamicByteBuffer {
    type V = Seq<u8>;

    /// The bytes held, from offset zero.
    closed spec fn view(&self) -> Seq<u8> {
        self.v@
    }
}

impl DynamicByteBuffer {
    /// The cursor: the offset of the next byte to be read.
    pub closed spec fn cursor(&self) -> int {
        self.idx as int
    }

    /// The cursor lies within the bytes, or just behind them.
    pub open spec fn wf(&self) -> bool {
        0 <= self.cursor() <= self@.len()
    }

    /// The bytes held are no more than the machine can count.
    pub proof fn lemma_len_fits(&self)
        ensures
            self@.len() <= usize::MAX,
    {
        assert(self.v@.len() == self.v.len());
    }

    /// An empty buffer.
    pub fn new() -> (b: DynamicByteBuffer)
        ensures
            b.wf(),
            b@ == Seq::<u8>::empty(),
            b.cursor() == 0,
    {
        DynamicByteBuffer { v: Vec::new(), idx: 0 }
    }

    /// All the bytes.
    pub fn as_slice(&self) -> (s: &[u8])
        ensures
            s@ == self@,
    {
        self.v.as_slice()
    }

    /// All the bytes as a string, if they are valid UTF-8.
    pub fn as_str(&self) -> (r: Result<&str, Utf8Error>)
        ensures
            r is Ok <==> valid_utf8(self@),
            r matches Ok(s) ==> s@ == decode_utf8(self@),
    {
        core::str::from_utf8(self.v.as_slice())
    }

    /// Puts `buf` in at the cursor. The cursor stays, so that the first byte
    /// of `buf` is the next to be read.
    pub fn insert(&mut self, buf: &[u8])
        requires
            old(self).wf(),
        ensures
            final(self).wf(),
            final(self)@ == splice(old(self)@, old(self).cursor(), buf@),
            final(self).cursor() == old(self).cursor(),
    {
        let mut tail = self.v.split_off(self.idx);
        self.v.extend_from_slice(buf);
        self.v.append(&mut tail);
        assert(self.v@ =~= splice(old(self).v@, self.idx as int, buf@));
    }

    /// The bytes from the cursor on.
    pub fn left(&self) -> (s: &[u8])
        requires
            self.wf(),
        ensures
            s@ == self@.subrange(self.cursor(), self@.len() as int),
    {
        slice_subrange(self.v.as_slice(), self.idx, self.v.len())
    }

    /// The number of bytes held.
    pub fn len(&self) -> (n: usize)
        ensures
            n == self@.len(),
    {
        self.v.len()
    }

    /// The cursor.
    pub fn index(&self) -> (i: usize)
        ensures
            i == self.cursor(),
    {
        self.idx
    }

    /// Takes out the `len` bytes that start at the cursor, or as many as
    /// there are, and returns them. The cursor stays.
    pub fn remove(&mut self, len: usize) -> (removed: Vec<u8>)
        requires
            old(self).wf(),
        ensures
            final(self).wf(),
            final(self).cursor() == old(self).cursor(),
            removed@.len() == min(len as int, old(self)@.len() - old(self).cursor()),
            removed@ == old(self)@.subrange(
                old(self).cursor(),
                old(self).cursor() + removed@.len(),
            ),
            final(self)@ == cut(old(self)@, old(self).cursor(), removed@.len() as int),
    {
        let sz = if len > self.v.len() - self.idx {
            self.v.len() - self.idx
        } else {
            len
        };
        let mut removed = self.v.split_off(self.idx);
        let mut rest = removed.split_off(sz);
        self.v.append(&mut rest);
        assert(removed@ =~= old(self).v@.subrange(self.idx as int, self.idx + sz));
        assert(self.v@ =~= cut(old(self).v@, self.idx as int, sz as int));
        removed
    }

    /// Moves the cursor to `new_idx`, or to the end of the bytes if that is
    /// nearer.
    pub fn set_index(&mut self, new_idx: usize)
        ensures
            final(self).wf(),
            final(self)@ == old(self)@,
            final(self).cursor() == min(new_idx as int, old(self)@.len() as int),
    {
        self.idx = if self.v.len() == 0 {
            0
        } else if new_idx >= self.v.len() {
            self.v.len()
        } else {
            new_idx
        }
    }

    /// The bytes from `start` up to `end`; see [`slice_of`].
    pub fn slice(&self, start: usize, end: usize) -> (s: &[u8])
        ensures
            s@ == slice_of(self@, start as int, end as int),
    {
        let end = if end > self.len() {
            self.len()
        } else {
            end
        };
        let start = if start > end {
            end
        } else {
            start
        };
        slice_subrange(self.v.as_slice(), start, end)
    }

    /// The text of the bytes from `start` up to `end`.
    pub fn slice_string(&self, start: usize, end: usize) -> (s: String)
        ensures
            s@ == text(slice_of(self@, start as int, end as int)),
    {
        lossy_string(self.slice(start, end))
    }

    /// Replaces the `out_bytes` bytes at the cursor, or as many as there are,
    /// by `in_buf`.
    pub fn swap(&mut self, out_bytes: usize, in_buf: &[u8])
        requires
            old(self).wf(),
        ensures
            final(self).wf(),
            final(self).cursor() == old(self).cursor(),
            final(self)@ == splice(
                cut(
                    old(self)@,
                    old(self).cursor(),
                    min(out_bytes as int, old(self)@.len() - old(self).cursor()),
                ),
                old(self).cursor(),
                in_buf@,
            ),
    {
        let _ = self.remove(out_bytes);
        self.insert(in_buf);
    }

    /// Reads the byte under the cursor, with its offset, and moves the cursor
    /// past it; `None` once the cursor is behind the last byte.
    pub fn next(&mut self) -> (r: Option<(usize, u8)>)
        requires
            old(self).wf(),
        ensures
            final(self).wf(),
            final(self)@ == old(self)@,
            match r {
                Some((i, b)) => i == old(self).cursor() && i < old(self)@.len() && b == old(self)@[i as int],
                None => old(self).cursor() >= old(self)@.len(),
            },
            final(self).cursor() == if old(self).cursor() < old(self)@.len() {
                old(self).cursor() + 1
            } else {
                old(self).cursor()
            },
    {
        let left = self.left();
        let byte = if left.len() > 0 {
            Some(left[0])
        } else {
            None
        };
        assert(byte is Some <==> self.idx < self.v.len());
        match byte {
            Some(b) => {
                let idx = self.index();
                self.set_index(idx + 1);
                Some((idx, b))
            },
            None => None,
        }
    }
}

} // verus!
