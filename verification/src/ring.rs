use vstd::prelude::*;

use crate::errors::OverflowError;

verus! {

/// Every sample of the output format occupies this many bytes: fixed-width
/// interleaved 16-bit PCM.
pub const BYTES_PER_SAMPLE: usize = 2;

/// Write-side model of the circular transfer buffer owned by the playback
/// hardware. The driver loop only queries free space and appends whole
/// sample blocks; the hardware takes samples from the front at its own
/// pace, modelled by `drain`. Free space is counted in bytes, as the
/// hardware reports it, while the contents are the queued samples. Two
/// ghost records keep the full story: `pushed` is every sample ever
/// accepted, in order, and `taken` is the prefix of it the hardware has
/// already consumed.
pub struct OutRing {
    /// Capacity in bytes.
    pub cap: usize,
    pub data: Vec<i16>,
    pub pushed: Ghost<Seq<i16>>,
    pub taken: Ghost<Seq<i16>>,
    pub stopped: bool,
}

impl OutRing {
    /// Occupancy never exceeds the fixed capacity, and what was taken
    /// followed by what still waits is exactly the push history: samples
    /// leave in the order they arrived, with no reordering and no loss.
    pub open spec fn wf(&self) -> bool {
        &&& BYTES_PER_SAMPLE * self.data@.len() <= self.cap
        &&& self.pushed@ == self.taken@ + self.data@
    }

    /// Samples accepted and not yet drained, front first.
    pub open spec fn contents(&self) -> Seq<i16> {
        self.data@
    }

    /// Every sample ever accepted, in push order.
    pub open spec fn history(&self) -> Seq<i16> {
        self.pushed@
    }

    /// Free space in bytes that a push may still use.
    pub open spec fn spec_available(&self) -> int {
        self.cap - BYTES_PER_SAMPLE * self.data@.len()
    }

    /// Samples appear downstream in push order: the drained prefix and the
    /// waiting suffix together are the history, so no push overtakes an
    /// earlier one and no two blocks interleave.
    pub proof fn lemma_fifo_order(&self)
        requires
            self.wf(),
        ensures
            self.history() == self.taken@ + self.contents(),
            self.history().len() >= self.contents().len(),
            self.contents() == self.history().skip(self.history().len() - self.contents().len()),
    {
        assert(self.pushed@.skip(self.taken@.len() as int) =~= self.data@);
    }

    /// An empty, running transfer buffer with the given byte capacity.
    pub fn new(cap: usize) -> (r: OutRing)
        ensures
            r.wf(),
            r.cap == cap,
            r.contents() == Seq::<i16>::empty(),
            r.history() == Seq::<i16>::empty(),
            !r.stopped,
    {
        OutRing {
            cap,
            data: Vec::new(),
            pushed: Ghost(Seq::empty()),
            taken: Ghost(Seq::empty()),
            stopped: false,
        }
    }

    /// Free space in bytes currently drainable by the hardware. The value
    /// goes stale as the hardware drains, so callers re-query before each
    /// push rather than assume it across a suspension point.
    pub fn available(&self) -> (r: usize)
        requires
            self.wf(),
        ensures
            r == self.spec_available(),
    {
        self.cap - 2 * self.data.len()
    }

    /// Appends a whole sample block atomically: accepted exactly when its
    /// byte length fits the current free space, and a rejected push changes
    /// nothing. A rejected push is recoverable — the caller keeps the block
    /// and retries a later iteration; it is never fatal.
    pub fn push(&mut self, block: &Vec<i16>) -> (r: Result<(), OverflowError>)
        requires
            old(self).wf(),
            !old(self).stopped,
        ensures
            final(self).wf(),
            final(self).cap == old(self).cap,
            final(self).stopped == old(self).stopped,
            r is Ok <==> BYTES_PER_SAMPLE * block@.len() <= old(self).spec_available(),
            r is Ok ==> final(self).contents() == old(self).contents() + block@
                && final(self).history() == old(self).history() + block@,
            r is Err ==> final(self).contents() == old(self).contents()
                && final(self).history() == old(self).history(),
            final(self).taken == old(self).taken,
    {
        let avail: usize = self.cap - 2 * self.data.len();
        if block.len() > avail / 2 {
            proof {
                assert(2 * block@.len() > avail);
            }
            return Err(OverflowError);
        }
        let ghost data0: Seq<i16> = self.data@;
        let mut i: usize = 0;
        while i < block.len()
            invariant
                i <= block.len(),
                self.data@ == data0 + block@.take(i as int),
                self.cap == old(self).cap,
                self.stopped == old(self).stopped,
                self.pushed == old(self).pushed,
                self.taken == old(self).taken,
                data0 == old(self).data@,
                2 * (block@.len() + data0.len()) <= self.cap,
            decreases block.len() - i,
        {
            self.data.push(block[i]);
            i += 1;
            proof {
                assert(block@.take(i as int) == block@.take(i - 1) + seq![block@[i - 1]]);
            }
        }
        proof {
            assert(block@.take(block@.len() as int) == block@);
            self.pushed@ = self.pushed@ + block@;
            assert(self.pushed@ =~= self.taken@ + self.data@);
        }
        Ok(())
    }

    /// Models the hardware taking the next `n` waiting samples (or all of
    /// them, when fewer wait) off the front of the buffer.
    pub fn drain(&mut self, n: usize)
        requires
            old(self).wf(),
        ensures
            final(self).wf(),
            final(self).cap == old(self).cap,
            final(self).stopped == old(self).stopped,
            final(self).history() == old(self).history(),
            n >= old(self).contents().len() ==> final(self).contents() == Seq::<i16>::empty(),
            n < old(self).contents().len() ==> final(self).contents() == old(
                self,
            ).contents().skip(n as int),
    {
        let m: usize = if n < self.data.len() {
            n
        } else {
            self.data.len()
        };
        let ghost data0: Seq<i16> = self.data@;
        let mut rest: Vec<i16> = Vec::new();
        let mut i: usize = m;
        while i < self.data.len()
            invariant
                m <= i <= self.data@.len(),
                self.data@ == data0,
                self.cap == old(self).cap,
                self.stopped == old(self).stopped,
                self.pushed == old(self).pushed,
                self.taken == old(self).taken,
                data0 == old(self).data@,
                m <= data0.len(),
                2 * data0.len() <= self.cap,
                rest@ == data0.subrange(m as int, i as int),
            decreases self.data@.len() - i,
        {
            rest.push(self.data[i]);
            i += 1;
            proof {
                assert(data0.subrange(m as int, i as int) == data0.subrange(m as int, i - 1)
                    + seq![data0[i - 1]]);
            }
        }
        proof {
            assert(rest@ =~= data0.skip(m as int));
        }
        self.data = rest;
        proof {
            self.taken@ = self.taken@ + data0.take(m as int);
            assert(self.pushed@ =~= self.taken@ + self.data@);
            if n >= data0.len() {
                assert(self.data@ =~= Seq::<i16>::empty());
            }
        }
    }

    /// Terminates the hardware-driven drain; no later push is meaningful,
    /// so the driver stops pushing once this has been called.
    pub fn stop(&mut self)
        requires
            old(self).wf(),
        ensures
            final(self).wf(),
            final(self).stopped,
            final(self).cap == old(self).cap,
            final(self).contents() == old(self).contents(),
            final(self).history() == old(self).history(),
    {
        self.stopped = true;
    }
}

} // verus!
