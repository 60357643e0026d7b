//! A double-ended walk over a history buffer, oldest first.
use vstd::prelude::*;
use crate::ring::{history100, ring_len, ring_oldest, ring_wf, h100_len, h100_slices};

verus! {

/// Walks a history buffer from both ends; `len` and `size_hint` always
/// report the length of the whole buffer.
#[verifier::reject_recursive_types(T)]
pub struct HistoryBufferDoubleEndedIterator<'a, T, const N: usize> {
    buf: &'a heapless::HistoryBuffer<T, N>,
    cur: usize,
    cur_back: usize,
}

impl<'a> HistoryBufferDoubleEndedIterator<'a, u16, 100> {
    /// The buffer's contents, oldest first.
    pub closed spec fn contents(&self) -> Seq<u16> {
        ring_oldest(history100(*self.buf))
    }

    /// The front and back positions.
    pub closed spec fn position(&self) -> (usize, usize) {
        (self.cur, self.cur_back)
    }

    pub fn new(buf: &'a heapless::HistoryBuffer<u16, 100>) -> (it: Self)
        ensures
            it.contents() == ring_oldest(history100(*buf)),
            it.position() == (0usize, ring_len(history100(*buf)) as usize),
    {
        HistoryBufferDoubleEndedIterator { buf, cur: 0, cur_back: h100_len(buf) }
    }

    /// Advances the front position first, then yields the item there.
    pub fn next(&mut self) -> (r: Option<u16>)
        requires
            old(self).position().0 < usize::MAX,
        ensures
            final(self).contents() == old(self).contents(),
            final(self).position() == ((old(self).position().0 + 1) as usize, old(self).position().1),
            r == if final(self).position().0 < old(self).contents().len() {
                Some(old(self).contents()[final(self).position().0 as int])
            } else {
                None::<u16>
            },
    {
        let (a, b) = h100_slices(self.buf);
        self.cur = self.cur + 1;
        if self.cur < a.len() {
            Some(a[self.cur])
        } else if self.cur < a.len() + b.len() {
            Some(b[self.cur - a.len()])
        } else {
            None
        }
    }

    /// Yields the item before the back position, if any.
    pub fn next_back(&mut self) -> (r: Option<u16>)
        ensures
            final(self).contents() == old(self).contents(),
            old(self).position().1 == 0 ==> r == None::<u16> && final(self).position() == old(self).position(),
            old(self).position().1 > 0 ==> {
                &&& final(self).position() == (old(self).position().0, (old(self).position().1 - 1) as usize)
                &&& r == if final(self).position().1 < old(self).contents().len() {
                    Some(old(self).contents()[final(self).position().1 as int])
                } else {
                    None::<u16>
                }
            },
    {
        let (a, b) = h100_slices(self.buf);
        if self.cur_back == 0 {
            return None;
        }
        self.cur_back = self.cur_back - 1;
        if self.cur_back < a.len() {
            Some(a[self.cur_back])
        } else if self.cur_back < a.len() + b.len() {
            Some(b[self.cur_back - a.len()])
        } else {
            None
        }
    }

    pub fn size_hint(&self) -> (r: (usize, Option<usize>))
        ensures
            r == (self.contents().len() as usize, Some(self.contents().len() as usize)),
    {
        let n = h100_len(self.buf);
        (n, Some(n))
    }

    /// The exact length that `size_hint` reports.
    pub fn len(&self) -> (n: usize)
        ensures
            n == self.contents().len(),
    {
        h100_len(self.buf)
    }
}

} // verus!
