use vstd::prelude::*;
use crate::error::Error;

verus! {

/// Outcome of a reservation of `count` elements of `size` bytes aligned to
/// `align`, at `start + offset`, against the high-water mark `remaining` and
/// the buffer end `end`: the region's address, or why it is refused.
pub open spec fn reserve_outcome(
    start: int,
    remaining: int,
    end: int,
    offset: int,
    count: int,
    size: int,
    align: int,
) -> Result<int, Error> {
    let p = start + offset;
    if p > u64::MAX {
        Err(Error::OutOfBounds)
    } else if p < remaining {
        Err(Error::BackwardOrOverlapping)
    } else if p % align != 0 {
        Err(Error::Misaligned)
    } else if count * size > u64::MAX {
        Err(Error::OutOfBounds)
    } else if p + count * size > end {
        Err(Error::OutOfBounds)
    } else {
        Ok(p)
    }
}

/// Forward-only validator of regions of one buffer, whose first byte is at
/// address `start` and whose end is at `end`. Every region handed out lies
/// in `[start, remaining)`; the next one must begin at `remaining` or later.
pub struct Heap {
    pub start: u64,
    pub remaining: u64,
    pub end: u64,
    /// Every region reserved so far, as `(first, past_last)` addresses.
    pub reserved: Ghost<Seq<(int, int)>>,
}

impl Heap {
    pub open spec fn wf(&self) -> bool {
        &&& self.start <= self.remaining <= self.end
        &&& forall|i: int|
            0 <= i < self.reserved@.len() ==> self.start <= #[trigger] self.reserved@[i].0
                <= self.reserved@[i].1 <= self.remaining
        &&& forall|i: int, j: int|
            0 <= i < j < self.reserved@.len() ==> #[trigger] self.reserved@[i].1
                <= #[trigger] self.reserved@[j].0
    }

    /// A validator over `len` bytes starting at address `start`.
    pub fn new(start: u64, len: u64) -> (r: Heap)
        requires
            start + len <= u64::MAX,
        ensures
            r.wf(),
            r.start == start,
            r.remaining == start,
            r.end == start + len,
            r.reserved@ == Seq::<(int, int)>::empty(),
    {
        Heap { start, remaining: start, end: start + len, reserved: Ghost(Seq::empty()) }
    }

    /// Reserves `count` elements of `size` bytes at `start + offset`, aligned
    /// to `align`, and returns the region's address. On success the
    /// high-water mark moves to the region's end; on failure nothing changes.
    pub fn reserve(&mut self, offset: u64, count: u64, size: u64, align: u64) -> (r: Result<
        u64,
        Error,
    >)
        requires
            old(self).wf(),
            align > 0,
        ensures
            final(self).wf(),
            final(self).start == old(self).start,
            final(self).end == old(self).end,
            match r {
                Ok(p) => {
                    &&& reserve_outcome(
                        old(self).start as int,
                        old(self).remaining as int,
                        old(self).end as int,
                        offset as int,
                        count as int,
                        size as int,
                        align as int,
                    ) == Ok::<int, Error>(p as int)
                    &&& final(self).remaining == p + count * size
                    &&& final(self).reserved@ == old(self).reserved@.push(
                        (p as int, p + count * size),
                    )
                },
                Err(e) => {
                    &&& reserve_outcome(
                        old(self).start as int,
                        old(self).remaining as int,
                        old(self).end as int,
                        offset as int,
                        count as int,
                        size as int,
                        align as int,
                    ) == Err::<int, Error>(e)
                    &&& *final(self) == *old(self)
                },
            },
    {
        let p = match self.start.checked_add(offset) {
            Some(p) => p,
            None => { return Err(Error::OutOfBounds); },
        };
        if p < self.remaining {
            return Err(Error::BackwardOrOverlapping);
        }
        if p % align != 0 {
            return Err(Error::Misaligned);
        }
        let byte_len = match count.checked_mul(size) {
            Some(n) => n,
            None => { return Err(Error::OutOfBounds); },
        };
        let past = match p.checked_add(byte_len) {
            Some(q) => q,
            None => { return Err(Error::OutOfBounds); },
        };
        if past > self.end {
            return Err(Error::OutOfBounds);
        }
        let ghost before = self.reserved@;
        self.remaining = past;
        self.reserved = Ghost(self.reserved@.push((p as int, past as int)));
        proof {
            let log = self.reserved@;
            assert forall|i: int, j: int| 0 <= i < j < log.len() implies #[trigger] log[i].1
                <= #[trigger] log[j].0 by {
                assert(log[i] == before[i]);
                assert(before[i].0 <= before[i].1);
                if j < before.len() {
                    assert(log[j] == before[j]);
                }
            }
            assert forall|i: int| 0 <= i < log.len() implies self.start <= #[trigger] log[i].0
                <= log[i].1 <= self.remaining by {
                if i < before.len() {
                    assert(before[i] == log[i]);
                }
            }
        }
        Ok(p)
    }
}

/// Any two regions reserved from one validator are disjoint.
pub proof fn lemma_reservations_disjoint(h: Heap, i: int, j: int)
    requires
        h.wf(),
        0 <= i < h.reserved@.len(),
        0 <= j < h.reserved@.len(),
        i != j,
    ensures
        h.reserved@[i].1 <= h.reserved@[j].0 || h.reserved@[j].1 <= h.reserved@[i].0,
{
}

/// Regions are handed out in order of non-decreasing start address.
pub proof fn lemma_reservations_monotone(h: Heap, i: int, j: int)
    requires
        h.wf(),
        0 <= i <= j < h.reserved@.len(),
    ensures
        h.reserved@[i].0 <= h.reserved@[j].0,
{
    if i < j {
        assert(h.reserved@[i].1 <= h.reserved@[j].0);
    }
}

} // verus!
