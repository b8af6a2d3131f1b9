//! The payload of a segment: what the segment logic needs of a buffer.

use core::ops::Range;
use vstd::prelude::*;
use vstd::slice::slice_subrange;

verus! {

/// A TCP payload that operates around `u32` instead of `usize`.
pub trait Payload: Sized {
    /// The bytes that the payload stands for. An implementation says what
    /// they are; by itself the trait says nothing of them.
    open spec fn bytes(&self) -> Seq<u8> {
        arbitrary()
    }

    /// Returns the length of the payload. The payload holds no more bytes
    /// than a `usize` can count.
    fn len(&self) -> (n: usize)
        requires
            self.bytes().len() <= usize::MAX,
        ensures
            n == self.bytes().len(),
    ;

    /// Creates a slice of the payload, reducing it to only the bytes within
    /// `range`. The range lies within the payload and its end does not
    /// precede its start.
    fn slice(self, range: Range<u32>) -> (r: Self)
        requires
            range.start <= range.end <= self.bytes().len(),
        ensures
            r.bytes() == self.bytes().subrange(range.start as int, range.end as int),
    ;

    /// Copies part of the payload beginning at `offset` into `dst`, filling
    /// all of `dst`.
    fn partial_copy(&self, offset: usize, dst: &mut [u8])
        requires
            offset + old(dst)@.len() <= self.bytes().len(),
        ensures
            final(dst)@ == self.bytes().subrange(offset as int, offset + old(dst)@.len()),
    ;
}

impl Payload for &[u8] {
    open spec fn bytes(&self) -> Seq<u8> {
        self@
    }

    fn len(&self) -> (n: usize) {
        <[u8]>::len(self)
    }

    fn slice(self, range: Range<u32>) -> (r: Self) {
        let start: usize = range.start as usize;
        let end: usize = range.end as usize;
        slice_subrange(self, start, end)
    }

    fn partial_copy(&self, offset: usize, dst: &mut [u8]) {
        let n: usize = dst.len();
        let total: usize = <[u8]>::len(self);
        let mut i: usize = 0;
        while i < n
            invariant
                i <= n,
                n == dst@.len(),
                offset + n <= total == self@.len(),
                forall|k: int| 0 <= k < i ==> dst@[k] == self@[offset + k],
            decreases n - i,
        {
            dst[i] = self[offset + i];
            i += 1;
        }
        assert(dst@ =~= self@.subrange(offset as int, offset + n));
    }
}

impl Payload for () {
    open spec fn bytes(&self) -> Seq<u8> {
        Seq::empty()
    }

    fn len(&self) -> (n: usize) {
        0
    }

    fn slice(self, range: Range<u32>) -> (r: Self) {
        ()
    }

    fn partial_copy(&self, offset: usize, dst: &mut [u8]) {
        assert(dst@ =~= Seq::<u8>::empty().subrange(offset as int, offset + dst@.len()));
    }
}

/// A slice holds no more bytes than a `usize` can count, so it meets what
/// [`Payload::len`] asks of a payload.
pub proof fn lemma_slice_len_fits(data: &[u8])
    ensures
        data.bytes().len() <= usize::MAX,
{
    assert(data.len() == data@.len());
}

/// A payload to send: one run of bytes, or two runs that follow one another.
#[derive(Debug, PartialEq, Eq, Clone, Copy)]
pub enum SendPayload<'a> {
    /// The payload lies in one buffer.
    Contiguous(&'a [u8]),
    /// The payload straddles two buffers: the first, then the second.
    Straddle(&'a [u8], &'a [u8]),
}

impl<'a> Payload for SendPayload<'a> {
    open spec fn bytes(&self) -> Seq<u8> {
        match self {
            SendPayload::Contiguous(p) => p@,
            SendPayload::Straddle(first, second) => first@ + second@,
        }
    }

    fn len(&self) -> (n: usize) {
        match self {
            SendPayload::Contiguous(p) => <[u8]>::len(p),
            SendPayload::Straddle(first, second) => <[u8]>::len(first) + <[u8]>::len(second),
        }
    }

    fn slice(self, range: Range<u32>) -> (r: Self) {
        match self {
            SendPayload::Contiguous(p) => SendPayload::Contiguous(p.slice(range)),
            SendPayload::Straddle(first, second) => {
                let start: usize = range.start as usize;
                let end: usize = range.end as usize;
                let first_len: usize = <[u8]>::len(first);
                if start < first_len && end > first_len {
                    let head = slice_subrange(first, start, first_len);
                    let tail = slice_subrange(second, 0, end - first_len);
                    assert((first@ + second@).subrange(start as int, end as int) =~= head@
                        + tail@);
                    SendPayload::Straddle(head, tail)
                } else if start >= first_len {
                    let tail = slice_subrange(second, start - first_len, end - first_len);
                    assert((first@ + second@).subrange(start as int, end as int) =~= tail@);
                    SendPayload::Contiguous(tail)
                } else {
                    let head = slice_subrange(first, start, end);
                    assert((first@ + second@).subrange(start as int, end as int) =~= head@);
                    SendPayload::Contiguous(head)
                }
            },
        }
    }

    fn partial_copy(&self, offset: usize, dst: &mut [u8]) {
        match self {
            SendPayload::Contiguous(p) => p.partial_copy(offset, dst),
            SendPayload::Straddle(first, second) => {
                let n: usize = dst.len();
                let first_len: usize = <[u8]>::len(first);
                let second_len: usize = <[u8]>::len(second);
                let mut i: usize = 0;
                while i < n
                    invariant
                        i <= n,
                        n == dst@.len(),
                        first_len == first@.len(),
                        second_len == second@.len(),
                        offset + n <= first_len + second_len,
                        forall|k: int| 0 <= k < i ==> dst@[k] == (first@ + second@)[offset + k],
                    decreases n - i,
                {
                    if offset < first_len {
                        let head: usize = first_len - offset;
                        if i < head {
                            dst[i] = first[offset + i];
                        } else {
                            dst[i] = second[i - head];
                        }
                    } else {
                        dst[i] = second[offset - first_len + i];
                    }
                    i += 1;
                }
                assert(dst@ =~= (first@ + second@).subrange(offset as int, offset + n));
            },
        }
    }
}

} // verus!
