use vstd::prelude::*;

use crate::codec::Codec;
use crate::errors::{DecodeError, ParseError};
use crate::header::{spec_parse_unit, MpegLayer, MAX_BLOCK_SAMPLES};
use crate::reservoir::{lemma_skip_to_marker_aligns, spec_skip_to_marker, Reservoir};
use crate::ring::OutRing;
use crate::source::{spec_chunk_len, MemorySource, CHUNK_SZ};

verus! {

/// The reservoir contents after one steady-state refill: one source chunk
/// appended exactly when a whole chunk fits the free space and the source
/// still has bytes, untouched otherwise.
pub open spec fn spec_after_admission(contents: Seq<u8>, cap: int, rem: Seq<u8>) -> Seq<u8> {
    if cap - contents.len() >= CHUNK_SZ && rem.len() > 0 {
        contents + rem.take(spec_chunk_len(rem.len() as nat) as int)
    } else {
        contents
    }
}

/// The source bytes still unread after one steady-state refill.
pub open spec fn spec_after_refill_rem(contents_len: int, cap: int, rem: Seq<u8>) -> Seq<u8> {
    if cap - contents_len >= CHUNK_SZ && rem.len() > 0 {
        rem.skip(spec_chunk_len(rem.len() as nat) as int)
    } else {
        rem
    }
}

/// Where the driver loop stands: pre-roll admissions, marker search,
/// steady-state decode and push, flushing after source exhaustion, and the
/// terminal state with the hardware transfer stopped.
#[derive(Clone, Copy, Debug, PartialEq, Eq, Structural)]
pub enum DriveState {
    Filling,
    Syncing,
    Streaming,
    Draining,
    Stopped,
}

/// The cooperative driver that keeps the reservoir and the transfer
/// buffer in a stable relationship. Its only mutable cross-iteration state
/// beyond the components themselves is the pending sample block: the
/// samples decoded but not yet delivered downstream.
pub struct Pipeline {
    pub reservoir: Reservoir,
    pub codec: Codec,
    /// The current undelivered sample block; must empty before a new
    /// decode is attempted.
    pub pending: Vec<i16>,
    pub state: DriveState,
    /// Every sample this driver has delivered downstream, in order.
    pub delivered: Ghost<Seq<i16>>,
}

impl Pipeline {
    pub open spec fn wf(&self) -> bool {
        &&& self.reservoir.wf()
        &&& self.pending@.len() <= MAX_BLOCK_SAMPLES
    }

    /// The transfer buffer has received exactly what this driver delivered,
    /// sample for sample and in order.
    pub open spec fn linked(&self, ring: &OutRing) -> bool {
        ring.history() == self.delivered@
    }

    /// The backpressure policy: deliver only when the free byte count
    /// exceeds twice the pending block's byte length, so a push cannot be
    /// invalidated by the buffer wrapping underneath an in-flight write.
    pub open spec fn spec_wants_push(avail: int, pending_samples: int) -> bool {
        pending_samples > 0 && avail > 2 * (2 * pending_samples)
    }

    /// Output ordering, end to end: what the hardware has taken, followed
    /// by what still waits in the transfer buffer, is exactly the sequence
    /// of samples this driver delivered — blocks in decode order, whole
    /// and without interleaving.
    pub proof fn lemma_output_order(&self, ring: &OutRing)
        requires
            ring.wf(),
            self.linked(ring),
        ensures
            ring.taken@ + ring.contents() == self.delivered@,
    {
        ring.lemma_fifo_order();
    }

    /// A fresh driver in the pre-roll state, with an empty reservoir of
    /// the given capacity and a fresh decode step.
    pub fn new(reservoir_cap: usize) -> (r: Pipeline)
        requires
            reservoir_cap <= 0x7fffffff,
        ensures
            r.wf(),
            r.state == DriveState::Filling,
            r.pending@.len() == 0,
            r.delivered@ == Seq::<i16>::empty(),
            r.reservoir.cap == reservoir_cap,
            r.reservoir.contents() == Seq::<u8>::empty(),
    {
        Pipeline {
            reservoir: Reservoir::new(reservoir_cap),
            codec: Codec::new(),
            pending: Vec::new(),
            state: DriveState::Filling,
            delivered: Ghost(Seq::empty()),
        }
    }

    /// The delivery decision against a freshly queried free byte count.
    pub fn wants_push(&self, avail: usize) -> (r: bool)
        requires
            self.wf(),
        ensures
            r == Self::spec_wants_push(avail as int, self.pending@.len() as int),
    {
        self.pending.len() > 0 && avail > 4 * self.pending.len()
    }

    /// For a driver whose transfer buffer lives in real hardware: records
    /// that the pending block was pushed whole, clearing it.
    pub fn mark_delivered(&mut self)
        requires
            old(self).wf(),
        ensures
            final(self).wf(),
            final(self).pending@.len() == 0,
            final(self).delivered@ == old(self).delivered@ + old(self).pending@,
            final(self).reservoir == old(self).reservoir,
            final(self).state == old(self).state,
    {
        proof {
            self.delivered@ = self.delivered@ + self.pending@;
        }
        self.pending = Vec::new();
    }

    /// One delivery attempt against the transfer buffer: queries free
    /// space, and pushes the whole pending block exactly when the
    /// backpressure policy allows it. A withheld delivery leaves the
    /// pending block and the buffer exactly as they were.
    pub fn try_deliver(&mut self, ring: &mut OutRing) -> (delivered: bool)
        requires
            old(self).wf(),
            old(ring).wf(),
            !old(ring).stopped,
            old(self).linked(old(ring)),
        ensures
            final(self).wf(),
            final(ring).wf(),
            final(self).linked(final(ring)),
            final(ring).cap == old(ring).cap,
            final(ring).stopped == old(ring).stopped,
            final(self).reservoir == old(self).reservoir,
            final(self).state == old(self).state,
            delivered == Pipeline::spec_wants_push(
                old(ring).spec_available(),
                old(self).pending@.len() as int,
            ),
            !delivered ==> final(self).pending@ == old(self).pending@ && final(ring).contents()
                == old(ring).contents() && final(ring).history() == old(ring).history()
                && final(self).delivered@ == old(self).delivered@,
            delivered ==> final(ring).history() == old(ring).history() + old(self).pending@
                && final(ring).contents() == old(ring).contents() + old(self).pending@
                && final(self).pending@.len() == 0 && final(self).delivered@ == old(
                self,
            ).delivered@ + old(self).pending@,
    {
        let avail: usize = ring.available();
        if self.pending.len() > 0 && avail > 4 * self.pending.len() {
            match ring.push(&self.pending) {
                Ok(()) => {
                    self.mark_delivered();
                    true
                },
                Err(_) => {
                    proof {
                        assert(false);
                    }
                    false
                },
            }
        } else {
            false
        }
    }

    /// One iteration of the cooperative driver loop over a memory-backed
    /// source and the transfer-buffer model. Per iteration it does at most
    /// one delivery attempt, one admission and one decode, as the
    /// steady-state policy prescribes; the returned value is the state
    /// after the iteration. Delivered samples only ever grow by appending
    /// a whole pending block, so downstream order is decode order.
    pub fn step(&mut self, ring: &mut OutRing, source: &mut MemorySource) -> (s: DriveState)
        requires
            old(self).wf(),
            old(ring).wf(),
            old(source).wf(),
            old(self).linked(old(ring)),
            old(self).state != DriveState::Stopped ==> !old(ring).stopped,
        ensures
            final(self).wf(),
            final(ring).wf(),
            final(source).wf(),
            final(self).linked(final(ring)),
            final(ring).cap == old(ring).cap,
            final(source).data@ == old(source).data@,
            s == final(self).state,
            final(self).delivered@ == old(self).delivered@ || final(self).delivered@ == old(
                self,
            ).delivered@ + old(self).pending@,
            old(self).state == DriveState::Streaming && old(self).pending@.len() > 0
                && !Pipeline::spec_wants_push(
                old(ring).spec_available(),
                old(self).pending@.len() as int,
            ) ==> final(self).pending@ == old(self).pending@ && final(ring).contents() == old(
                ring,
            ).contents() && final(ring).history() == old(ring).history(),
            old(self).state == DriveState::Stopped ==> final(ring).contents() == old(
                ring,
            ).contents() && final(ring).history() == old(ring).history() && final(self).pending@
                == old(self).pending@,
            final(ring).stopped ==> final(self).state == DriveState::Stopped,
            old(ring).stopped ==> final(ring).stopped,
            old(self).state == DriveState::Filling ==> final(self).state == DriveState::Syncing
                && final(self).pending@ == old(self).pending@ && final(ring).history() == old(
                ring,
            ).history() && final(self).reservoir.contents() == spec_after_admission(
                old(self).reservoir.contents(),
                old(self).reservoir.cap as int,
                old(source).remaining(),
            ) && final(source).remaining() == spec_after_refill_rem(
                old(self).reservoir.contents().len() as int,
                old(self).reservoir.cap as int,
                old(source).remaining(),
            ),
            old(self).state == DriveState::Streaming && Pipeline::spec_wants_push(
                old(ring).spec_available(),
                old(self).pending@.len() as int,
            ) ==> final(ring).history() == old(ring).history() + old(self).pending@
                && final(self).pending@.len() == 0 && final(self).state == DriveState::Streaming
                && final(self).reservoir == old(self).reservoir,
            old(self).state == DriveState::Draining && Pipeline::spec_wants_push(
                old(ring).spec_available(),
                old(self).pending@.len() as int,
            ) ==> final(ring).history() == old(ring).history() + old(self).pending@
                && final(self).pending@.len() == 0 && final(ring).stopped && final(self).state
                == DriveState::Stopped,
            old(self).state == DriveState::Streaming && old(self).pending@.len() == 0
                && old(self).reservoir.cap - old(self).reservoir.contents().len() >= CHUNK_SZ
                && old(source).remaining().len() == 0 ==> final(self).state
                == DriveState::Draining && final(self).reservoir.contents() == old(
                self,
            ).reservoir.contents() && final(self).pending@.len() == 0 && final(ring).history()
                == old(ring).history(),
            old(self).state == DriveState::Streaming && old(self).pending@.len() == 0 && !(
            old(self).reservoir.cap - old(self).reservoir.contents().len() >= CHUNK_SZ
                && old(source).remaining().len() == 0) ==> ({
                let mid = spec_after_admission(
                    old(self).reservoir.contents(),
                    old(self).reservoir.cap as int,
                    old(source).remaining(),
                );
                &&& final(source).remaining() == spec_after_refill_rem(
                    old(self).reservoir.contents().len() as int,
                    old(self).reservoir.cap as int,
                    old(source).remaining(),
                )
                &&& final(ring).history() == old(ring).history()
                &&& ({
                    ||| (spec_parse_unit(mid) matches Some(u) && u.layer == MpegLayer::L3
                        && final(self).state == DriveState::Streaming
                        && final(self).pending@.len() == u.samples
                        && final(self).reservoir.contents().len() + 4 <= mid.len())
                    ||| (final(self).pending@.len() == 0 && final(self).state
                        == DriveState::Syncing && (final(self).reservoir.contents() == mid.skip(1)
                        || final(self).reservoir.contents() == mid))
                    ||| (final(self).pending@.len() == 0 && final(self).state
                        == DriveState::Draining && final(self).reservoir.contents() == mid)
                    ||| (spec_parse_unit(mid) matches Some(u) && u.layer == MpegLayer::L3
                        && final(self).pending@.len() == 0 && final(self).state
                        == DriveState::Streaming && final(self).reservoir.contents() == mid)
                })
            }),
            old(self).state == DriveState::Syncing && spec_parse_unit(
                spec_skip_to_marker(old(self).reservoir.contents()),
            ) is Some ==> final(self).state == DriveState::Streaming
                && final(self).reservoir.contents() == spec_skip_to_marker(
                old(self).reservoir.contents(),
            ),
            old(self).state == DriveState::Draining && old(self).pending@.len() == 0
                ==> final(self).state == DriveState::Stopped && final(ring).stopped
                && final(ring).history() == old(ring).history(),
            old(self).state == DriveState::Stopped ==> final(self).state == DriveState::Stopped,
    {
        proof {
            lemma_skip_to_marker_aligns(self.reservoir.contents());
        }
        match self.state {
            DriveState::Filling => {
                if self.reservoir.free_space() >= CHUNK_SZ {
                    match source.next_chunk() {
                        Some(c) => {
                            let _ = self.reservoir.accept_chunk(&c);
                            self.state = DriveState::Syncing;
                        },
                        None => {
                            self.state = DriveState::Syncing;
                        },
                    }
                } else {
                    self.state = DriveState::Syncing;
                }
            },
            DriveState::Syncing => {
                let found = self.reservoir.skip_to_marker();
                if found {
                    match self.reservoir.peek_unit_info() {
                        Ok(_) => {
                            self.state = DriveState::Streaming;
                        },
                        Err(ParseError::Truncated) => {
                            if source.is_exhausted() {
                                self.state = DriveState::Draining;
                            } else {
                                self.state = DriveState::Filling;
                            }
                        },
                        Err(_) => {
                            // A marker byte pattern without a valid header:
                            // discard the false marker and search on.
                            self.reservoir.drop_front(1);
                        },
                    }
                } else {
                    if source.is_exhausted() {
                        self.state = DriveState::Draining;
                    } else {
                        self.state = DriveState::Filling;
                    }
                }
            },
            DriveState::Streaming => {
                if self.pending.len() > 0 {
                    let _ = self.try_deliver(ring);
                } else {
                    let mut out_of_data: bool = false;
                    if self.reservoir.free_space() >= CHUNK_SZ {
                        match source.next_chunk() {
                            Some(c) => {
                                let _ = self.reservoir.accept_chunk(&c);
                            },
                            None => {
                                self.state = DriveState::Draining;
                                out_of_data = true;
                            },
                        }
                    }
                    if !out_of_data {
                        let mut out: Vec<i16> = zero_block();
                        match self.reservoir.decode_next(&mut self.codec, &mut out) {
                            Ok(n) => {
                                self.pending = take_prefix(&out, n);
                            },
                            Err(DecodeError::NeedMoreData) => {
                                if source.is_exhausted() {
                                    self.state = DriveState::Draining;
                                } else if self.reservoir.free_space() < CHUNK_SZ {
                                    // The unit cannot fit what the reservoir
                                    // has room for: discard its marker and
                                    // resynchronize further on.
                                    self.reservoir.drop_front(1);
                                    self.state = DriveState::Syncing;
                                }
                            },
                            Err(_) => {
                                // A bad or misaligned unit: skip a byte and
                                // search for the next marker.
                                if self.reservoir.occupied() > 0 {
                                    self.reservoir.drop_front(1);
                                }
                                self.state = DriveState::Syncing;
                            },
                        }
                    }
                }
            },
            DriveState::Draining => {
                if self.pending.len() > 0 {
                    let _ = self.try_deliver(ring);
                }
                if self.pending.len() == 0 {
                    ring.stop();
                    self.state = DriveState::Stopped;
                }
            },
            DriveState::Stopped => {},
        }
        self.state
    }
}

/// A zeroed scratch block large enough for any decoded unit.
fn zero_block() -> (r: Vec<i16>)
    ensures
        r@.len() == MAX_BLOCK_SAMPLES,
{
    let mut v: Vec<i16> = Vec::new();
    let mut i: usize = 0;
    while i < MAX_BLOCK_SAMPLES
        invariant
            i <= MAX_BLOCK_SAMPLES,
            v@.len() == i,
        decreases MAX_BLOCK_SAMPLES - i,
    {
        v.push(0i16);
        i += 1;
    }
    v
}

/// The first `n` samples of a scratch block, in order.
fn take_prefix(v: &Vec<i16>, n: usize) -> (r: Vec<i16>)
    requires
        n <= v@.len(),
    ensures
        r@ == v@.take(n as int),
{
    let mut r: Vec<i16> = Vec::new();
    let mut i: usize = 0;
    while i < n
        invariant
            i <= n <= v@.len(),
            r@ == v@.take(i as int),
        decreases n - i,
    {
        r.push(v[i]);
        i += 1;
        proof {
            assert(v@.take(i as int) == v@.take(i - 1) + seq![v@[i - 1]]);
        }
    }
    r
}

} // verus!
