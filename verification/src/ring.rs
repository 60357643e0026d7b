//! The history buffers of `heapless` that the measurement logic keeps its
//! samples in, seen through the pair of slices that `as_slices` hands out.
use vstd::prelude::*;

verus! {

#[verifier::external_type_specification]
#[verifier::external_body]
#[verifier::reject_recursive_types(T)]
pub struct ExHistoryBuffer<T, const N: usize>(heapless::HistoryBuffer<T, N>);

/// The oldest-first contents of a history buffer, split as `as_slices`
/// splits them.
pub open spec fn ring_oldest(s: (Seq<u16>, Seq<u16>)) -> Seq<u16> {
    s.0 + s.1
}

/// The backing storage in its physical order, which is what `as_slice`
/// (and the slice that the buffer dereferences to) shows.
pub open spec fn ring_raw(s: (Seq<u16>, Seq<u16>)) -> Seq<u16> {
    s.1 + s.0
}

pub open spec fn ring_len(s: (Seq<u16>, Seq<u16>)) -> nat {
    s.0.len() + s.1.len()
}

/// What every history buffer of capacity `cap` looks like: while it is not
/// full everything sits in the first slice; once full the oldest element
/// heads the first slice.
pub open spec fn ring_wf(s: (Seq<u16>, Seq<u16>), cap: nat) -> bool {
    &&& ring_len(s) <= cap
    &&& ring_len(s) < cap ==> s.1.len() == 0
    &&& ring_len(s) == cap ==> s.0.len() > 0
}

/// The effect of `write`: append while there is room, otherwise overwrite
/// the oldest element.
pub open spec fn ring_write(s: (Seq<u16>, Seq<u16>), cap: nat, v: u16) -> (Seq<u16>, Seq<u16>) {
    if ring_len(s) < cap {
        (s.0.push(v), s.1)
    } else if s.0.len() <= 1 {
        (s.1.push(v), Seq::empty())
    } else {
        (s.0.drop_first(), s.1.push(v))
    }
}

pub proof fn lemma_ring_write(s: (Seq<u16>, Seq<u16>), cap: nat, v: u16)
    requires
        ring_wf(s, cap),
        cap > 0,
    ensures
        ring_wf(ring_write(s, cap, v), cap),
        ring_len(s) < cap ==> ring_oldest(ring_write(s, cap, v)) == ring_oldest(s).push(v),
        ring_len(s) == cap ==> ring_oldest(ring_write(s, cap, v)) == ring_oldest(s).drop_first().push(v),
        ring_len(ring_write(s, cap, v)) == if ring_len(s) < cap { ring_len(s) + 1 } else { cap },
{
    let w = ring_write(s, cap, v);
    if ring_len(s) < cap {
        assert(ring_oldest(w) =~= ring_oldest(s).push(v));
    } else if s.0.len() <= 1 {
        assert(ring_oldest(w) =~= ring_oldest(s).drop_first().push(v));
    } else {
        assert(ring_oldest(w) =~= ring_oldest(s).drop_first().push(v));
    }
}

/// Contents of a history buffer of capacity 100 (the margins kept before a trigger and after a pulse), as
/// `as_slices` splits them.
pub uninterp spec fn history100(b: heapless::HistoryBuffer<u16, 100>) -> (Seq<u16>, Seq<u16>);

/// `HistoryBuffer::<u16, 100>::new`: an empty buffer.
#[verifier::external_body]
pub(crate) fn h100_new() -> (b: heapless::HistoryBuffer<u16, 100>)
    ensures
        history100(b) == (Seq::<u16>::empty(), Seq::<u16>::empty()),
{
    heapless::HistoryBuffer::new()
}

/// `HistoryBuffer::<u16, 100>::write`: appends, overwriting the oldest
/// element once the buffer is full.
#[verifier::external_body]
pub(crate) fn h100_write(b: &mut heapless::HistoryBuffer<u16, 100>, v: u16)
    ensures
        history100(*final(b)) == ring_write(history100(*old(b)), 100, v),
{
    b.write(v)
}

/// `HistoryBuffer::<u16, 100>::len`.
#[verifier::external_body]
pub(crate) fn h100_len(b: &heapless::HistoryBuffer<u16, 100>) -> (n: usize)
    ensures
        n == ring_len(history100(*b)),
        n <= 100,
{
    b.len()
}

/// `HistoryBuffer::<u16, 100>::oldest_ordered`, collected: oldest first.
#[verifier::external_body]
pub(crate) fn h100_oldest(b: &heapless::HistoryBuffer<u16, 100>) -> (v: Vec<u16>)
    ensures
        v@ == ring_oldest(history100(*b)),
{
    b.oldest_ordered().copied().collect()
}

/// Contents of a history buffer of capacity 500 (the single buffer of a
/// compacting measurement), as `as_slices` splits them.
pub uninterp spec fn history500(b: heapless::HistoryBuffer<u16, 500>) -> (Seq<u16>, Seq<u16>);

/// `HistoryBuffer::<u16, 500>::new`: an empty buffer.
#[verifier::external_body]
pub(crate) fn h500_new() -> (b: heapless::HistoryBuffer<u16, 500>)
    ensures
        history500(b) == (Seq::<u16>::empty(), Seq::<u16>::empty()),
{
    heapless::HistoryBuffer::new()
}

/// `HistoryBuffer::<u16, 500>::write`: appends, overwriting the oldest
/// element once the buffer is full.
#[verifier::external_body]
pub(crate) fn h500_write(b: &mut heapless::HistoryBuffer<u16, 500>, v: u16)
    ensures
        history500(*final(b)) == ring_write(history500(*old(b)), 500, v),
{
    b.write(v)
}

/// `HistoryBuffer::<u16, 500>::len`.
#[verifier::external_body]
pub(crate) fn h500_len(b: &heapless::HistoryBuffer<u16, 500>) -> (n: usize)
    ensures
        n == ring_len(history500(*b)),
        n <= 500,
{
    b.len()
}

/// `HistoryBuffer::<u16, 500>::as_slice`, copied out: the storage in its
/// physical order.
#[verifier::external_body]
pub(crate) fn h500_raw(b: &heapless::HistoryBuffer<u16, 500>) -> (v: Vec<u16>)
    ensures
        v@ == ring_raw(history500(*b)),
{
    b.as_slice().to_vec()
}

/// `HistoryBuffer::<u16, 500>::oldest_ordered`, collected: oldest first.
#[verifier::external_body]
pub(crate) fn h500_oldest(b: &heapless::HistoryBuffer<u16, 500>) -> (v: Vec<u16>)
    ensures
        v@ == ring_oldest(history500(*b)),
{
    b.oldest_ordered().copied().collect()
}

/// Contents of a history buffer of capacity 712 (a finished measurement's samples), as
/// `as_slices` splits them.
pub uninterp spec fn history712(b: heapless::HistoryBuffer<u16, 712>) -> (Seq<u16>, Seq<u16>);

/// `HistoryBuffer::<u16, 712>::new`: an empty buffer.
#[verifier::external_body]
pub(crate) fn h712_new() -> (b: heapless::HistoryBuffer<u16, 712>)
    ensures
        history712(b) == (Seq::<u16>::empty(), Seq::<u16>::empty()),
{
    heapless::HistoryBuffer::new()
}

/// `HistoryBuffer::<u16, 712>::write`: appends, overwriting the oldest
/// element once the buffer is full.
#[verifier::external_body]
pub(crate) fn h712_write(b: &mut heapless::HistoryBuffer<u16, 712>, v: u16)
    ensures
        history712(*final(b)) == ring_write(history712(*old(b)), 712, v),
{
    b.write(v)
}

/// `HistoryBuffer::<u16, 712>::len`.
#[verifier::external_body]
pub(crate) fn h712_len(b: &heapless::HistoryBuffer<u16, 712>) -> (n: usize)
    ensures
        n == ring_len(history712(*b)),
        n <= 712,
{
    b.len()
}

/// `HistoryBuffer::<u16, 712>::oldest_ordered`, collected: oldest first.
#[verifier::external_body]
pub(crate) fn h712_oldest(b: &heapless::HistoryBuffer<u16, 712>) -> (v: Vec<u16>)
    ensures
        v@ == ring_oldest(history712(*b)),
{
    b.oldest_ordered().copied().collect()
}

/// Contents of a history buffer of capacity 1024 (the ambient light samples of a calibration), as
/// `as_slices` splits them.
pub uninterp spec fn history1024(b: heapless::HistoryBuffer<u16, 1024>) -> (Seq<u16>, Seq<u16>);

/// `HistoryBuffer::<u16, 1024>::new`: an empty buffer.
#[verifier::external_body]
pub(crate) fn h1024_new() -> (b: heapless::HistoryBuffer<u16, 1024>)
    ensures
        history1024(b) == (Seq::<u16>::empty(), Seq::<u16>::empty()),
{
    heapless::HistoryBuffer::new()
}

/// `HistoryBuffer::<u16, 1024>::write`: appends, overwriting the oldest
/// element once the buffer is full.
#[verifier::external_body]
pub(crate) fn h1024_write(b: &mut heapless::HistoryBuffer<u16, 1024>, v: u16)
    ensures
        history1024(*final(b)) == ring_write(history1024(*old(b)), 1024, v),
{
    b.write(v)
}

/// `HistoryBuffer::<u16, 1024>::len`.
#[verifier::external_body]
pub(crate) fn h1024_len(b: &heapless::HistoryBuffer<u16, 1024>) -> (n: usize)
    ensures
        n == ring_len(history1024(*b)),
        n <= 1024,
{
    b.len()
}

/// `HistoryBuffer::<u16, 1024>::as_slice`, copied out: the storage in its
/// physical order.
#[verifier::external_body]
pub(crate) fn h1024_raw(b: &heapless::HistoryBuffer<u16, 1024>) -> (v: Vec<u16>)
    ensures
        v@ == ring_raw(history1024(*b)),
{
    b.as_slice().to_vec()
}

/// Contents of a history buffer of capacity 1000 (the light level history of the debug view), as
/// `as_slices` splits them.
pub uninterp spec fn history1000(b: heapless::HistoryBuffer<u16, 1000>) -> (Seq<u16>, Seq<u16>);

/// `HistoryBuffer::<u16, 1000>::new`: an empty buffer.
#[verifier::external_body]
pub(crate) fn h1000_new() -> (b: heapless::HistoryBuffer<u16, 1000>)
    ensures
        history1000(b) == (Seq::<u16>::empty(), Seq::<u16>::empty()),
{
    heapless::HistoryBuffer::new()
}

/// `HistoryBuffer::<u16, 1000>::write`: appends, overwriting the oldest
/// element once the buffer is full.
#[verifier::external_body]
pub(crate) fn h1000_write(b: &mut heapless::HistoryBuffer<u16, 1000>, v: u16)
    ensures
        history1000(*final(b)) == ring_write(history1000(*old(b)), 1000, v),
{
    b.write(v)
}

/// `HistoryBuffer::<u16, 1000>::oldest_ordered`, collected: oldest first.
#[verifier::external_body]
pub(crate) fn h1000_oldest(b: &heapless::HistoryBuffer<u16, 1000>) -> (v: Vec<u16>)
    ensures
        v@ == ring_oldest(history1000(*b)),
{
    b.oldest_ordered().copied().collect()
}

/// `HistoryBuffer::<u16, 100>::as_slices`, copied out.
#[verifier::external_body]
pub(crate) fn h100_slices(b: &heapless::HistoryBuffer<u16, 100>) -> (s: (Vec<u16>, Vec<u16>))
    ensures
        s.0@ == history100(*b).0,
        s.1@ == history100(*b).1,
        s.0@.len() + s.1@.len() <= 100,
{
    let (a, c) = b.as_slices();
    (a.to_vec(), c.to_vec())
}

} // verus!
