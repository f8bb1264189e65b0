//! A reader over bytes held in memory.

use vstd::prelude::*;
use vstd::slice::slice_to_vec;
use std::io::SeekFrom;
use crate::lexer::buffer::min;

verus! {

/// `std::io::SeekFrom`, with its three variants as the standard library
/// declares them.
#[verifier::external_type_specification]
pub struct ExSeekFrom(SeekFrom);

/// Bytes and an offset into them. Reading stops before the last byte.
pub struct DataReader {
    buffer: Vec<u8>,
    ptr: usize,
}

impl DataReader {
    /// The bytes to read from.
    pub closed spec fn bytes(&self) -> Seq<u8> {
        self.buffer@
    }

    /// The offset of the next byte to be read.
    pub closed spec fn position(&self) -> int {
        self.ptr as int
    }

    /// A reader at the start of a copy of `data`.
    pub fn new(data: &[u8]) -> (r: DataReader)
        ensures
            r.bytes() == data@,
            r.position() == 0,
    {
        DataReader { buffer: slice_to_vec(data), ptr: 0 }
    }

    /// The offset `count` bytes on, or that of the last byte if that is
    /// nearer.
    pub fn end_index(&self, count: usize) -> (i: usize)
        requires
            self.bytes().len() > 0,
            self.position() + count <= usize::MAX,
        ensures
            i == min(self.position() + count, self.bytes().len() - 1),
    {
        let req = self.ptr + count;
        let max = self.buffer.len() - 1;
        if req < max {
            req
        } else {
            max
        }
    }

    /// Copies bytes to the front of `buf`, as many as `buf` takes and as
    /// there are before the last byte, and moves on by as many. Returns their
    /// number.
    pub fn read(&mut self, buf: &mut [u8]) -> (n: usize)
        requires
            old(self).position() < old(self).bytes().len(),
            old(self).position() + old(buf)@.len() <= usize::MAX,
        ensures
            final(self).bytes() == old(self).bytes(),
            n == min(old(buf)@.len() as int, old(self).bytes().len() - 1 - old(self).position()),
            final(self).position() == old(self).position() + n,
            final(buf)@ == old(self).bytes().subrange(
                old(self).position(),
                old(self).position() + n,
            ) + old(buf)@.subrange(n as int, old(buf)@.len() as int),
    {
        let new_ptr = self.end_index(buf.len());
        let mut i: usize = 0;
        while self.ptr + i < new_ptr
            invariant
                self.ptr <= new_ptr < self.buffer@.len(),
                new_ptr - self.ptr <= buf@.len(),
                self.ptr + i <= new_ptr,
                buf@.len() == old(buf)@.len(),
                buf@ == self.buffer@.subrange(self.ptr as int, self.ptr + i) + old(
                    buf,
                )@.subrange(i as int, old(buf)@.len() as int),
            decreases new_ptr - self.ptr - i,
        {
            buf[i] = self.buffer[self.ptr + i];
            i += 1;
        }
        let sz = new_ptr - self.ptr;
        self.ptr = new_ptr;
        sz
    }

    /// Moves to the offset that `pos` names, and returns it. An offset from
    /// the start is taken as it is; an offset from the current position or
    /// from the end is counted from the current position and goes no further
    /// than the last byte.
    pub fn seek(&mut self, pos: SeekFrom) -> (at: u64)
        requires
            match pos {
                SeekFrom::Start(_) => true,
                SeekFrom::Current(sz) => old(self).bytes().len() > 0 && old(self).position() + (
                sz as usize) <= usize::MAX,
                SeekFrom::End(sz) => old(self).bytes().len() > 0 && old(self).position() + (
                sz as usize) <= usize::MAX,
            },
        ensures
            final(self).bytes() == old(self).bytes(),
            final(self).position() == match pos {
                SeekFrom::Start(sz) => (sz as usize) as int,
                SeekFrom::Current(sz) => min(
                    old(self).position() + (sz as usize),
                    old(self).bytes().len() - 1,
                ),
                SeekFrom::End(sz) => min(
                    old(self).position() + (sz as usize),
                    old(self).bytes().len() - 1,
                ),
            },
            at == final(self).position(),
    {
        match pos {
            SeekFrom::Start(sz) => {
                self.ptr = #[verifier::truncate] (sz as usize);
            },
            SeekFrom::Current(sz) => {
                self.ptr = self.end_index(#[verifier::truncate] (sz as usize));
            },
            SeekFrom::End(sz) => {
                self.ptr = self.end_index(#[verifier::truncate] (sz as usize));
            },
        }
        self.ptr as u64
    }
}

} // verus!
