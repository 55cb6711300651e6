use vstd::prelude::*;

use crate::errors::{DecodeError, OverflowError, ParseError};
use crate::header::{
    lemma_parse_unit_bounds, parse_unit, spec_has_marker, spec_marker_at, spec_parse_unit,
    MpegLayer, UnitInfo, MAX_BLOCK_SAMPLES,
};
use crate::codec::Codec;

verus! {

/// What `skip_to_marker` leaves in the reservoir: the occupied bytes from
/// the first marker on, or nothing when no marker occurs.
pub open spec fn spec_skip_to_marker(s: Seq<u8>) -> Seq<u8>
    decreases s.len(),
{
    if s.len() == 0 {
        s
    } else if spec_marker_at(s, 0) {
        s
    } else {
        spec_skip_to_marker(s.skip(1))
    }
}

/// Discarding up to the marker settles in one application: a second
/// `skip_to_marker` changes nothing.
pub proof fn lemma_skip_to_marker_idempotent(s: Seq<u8>)
    ensures
        spec_skip_to_marker(spec_skip_to_marker(s)) == spec_skip_to_marker(s),
    decreases s.len(),
{
    if s.len() == 0 {
    } else if spec_marker_at(s, 0) {
    } else {
        lemma_skip_to_marker_idempotent(s.skip(1));
    }
}

/// Skipping to the marker leaves either an aligned front or nothing at all.
pub proof fn lemma_skip_to_marker_aligns(s: Seq<u8>)
    ensures
        spec_skip_to_marker(s).len() == 0 || spec_marker_at(spec_skip_to_marker(s), 0),
        spec_skip_to_marker(s).len() > 0 <==> spec_has_marker(s),
    decreases s.len(),
{
    if s.len() == 0 {
        assert(!spec_has_marker(s));
    } else if spec_marker_at(s, 0) {
    } else {
        lemma_skip_to_marker_aligns(s.skip(1));
        assert forall|i: int| spec_marker_at(s.skip(1), i) implies spec_marker_at(s, i + 1) by {}
        assert forall|i: int| spec_marker_at(s, i) implies spec_marker_at(s.skip(1), i - 1) by {
            assert(i != 0);
            assert(s.skip(1)[i - 1] == s[i] && s.skip(1)[i - 1 + 1] == s[i + 1]);
        }
        assert(spec_has_marker(s.skip(1)) <==> spec_has_marker(s));
    }
}

/// Positions before the first marker do not change where the skip lands.
proof fn lemma_skip_to_marker_drop_prefix(s: Seq<u8>, i: int)
    requires
        0 <= i <= s.len(),
        forall|j: int| 0 <= j < i ==> !spec_marker_at(s, j),
    ensures
        spec_skip_to_marker(s) == spec_skip_to_marker(s.skip(i)),
    decreases i,
{
    if i == 0 {
        assert(s.skip(0) == s);
    } else {
        assert(!spec_marker_at(s, 0));
        assert(s.len() > 0);
        assert forall|j: int| 0 <= j < i - 1 implies !spec_marker_at(s.skip(1), j) by {
            assert(!spec_marker_at(s, j + 1));
            assert(s.skip(1)[j] == s[j + 1]);
            if j + 2 < s.len() {
                assert(s.skip(1)[j + 1] == s[j + 2]);
            }
        }
        lemma_skip_to_marker_drop_prefix(s.skip(1), i - 1);
        assert(s.skip(1).skip(i - 1) =~= s.skip(i));
    }
}

/// The bounded byte queue between the bursty source and the decode step.
/// Bytes enter at the back through `accept_chunk` and leave at the front, either
/// consumed by a decode or discarded while searching for the marker. The
/// front of the occupied region is index 0 of `buf`.
pub struct Reservoir {
    pub buf: Vec<u8>,
    pub cap: usize,
}

impl Reservoir {
    /// Occupancy never exceeds the fixed capacity, and the capacity is
    /// small enough that a byte count always fits the decode step's
    /// argument range.
    pub open spec fn wf(&self) -> bool {
        &&& self.buf@.len() <= self.cap
        &&& self.cap <= 0x7fffffff
    }

    /// The occupied bytes, front first.
    pub open spec fn contents(&self) -> Seq<u8> {
        self.buf@
    }

    /// Occupancy plus free space always make up exactly the capacity.
    pub proof fn lemma_occupied_bounded(&self)
        requires
            self.wf(),
        ensures
            self.contents().len() <= self.cap,
            self.contents().len() + (self.cap - self.contents().len()) == self.cap,
    {
    }

    /// An empty reservoir of the given capacity.
    pub fn new(cap: usize) -> (r: Reservoir)
        requires
            cap <= 0x7fffffff,
        ensures
            r.wf(),
            r.cap == cap,
            r.contents() == Seq::<u8>::empty(),
    {
        Reservoir { buf: Vec::new(), cap }
    }

    /// Capacity minus the occupied byte count. Side-effect-free.
    pub fn free_space(&self) -> (r: usize)
        requires
            self.wf(),
        ensures
            r == self.cap - self.contents().len(),
    {
        self.cap - self.buf.len()
    }

    /// Currently occupied byte count.
    pub fn occupied(&self) -> (r: usize)
        requires
            self.wf(),
        ensures
            r == self.contents().len(),
    {
        self.buf.len()
    }

    /// Appends `chunk` to the occupied region, all or nothing: the chunk is
    /// admitted exactly when it fits the current free space, and a rejected
    /// chunk leaves the reservoir untouched.
    pub fn accept_chunk(&mut self, chunk: &Vec<u8>) -> (r: Result<(), OverflowError>)
        requires
            old(self).wf(),
        ensures
            final(self).wf(),
            final(self).cap == old(self).cap,
            r is Ok <==> chunk@.len() <= old(self).cap - old(self).contents().len(),
            r is Ok ==> final(self).contents() == old(self).contents() + chunk@,
            r is Err ==> final(self).contents() == old(self).contents(),
    {
        if chunk.len() > self.cap - self.buf.len() {
            return Err(OverflowError);
        }
        let mut i: usize = 0;
        while i < chunk.len()
            invariant
                i <= chunk.len(),
                self.buf@ == old(self).buf@ + chunk@.take(i as int),
                self.cap == old(self).cap,
                chunk@.len() <= self.cap - old(self).buf@.len(),
            decreases chunk.len() - i,
        {
            self.buf.push(chunk[i]);
            i += 1;
            proof {
                assert(chunk@.take(i as int) == chunk@.take(i - 1) + seq![chunk@[i - 1]]);
            }
        }
        proof {
            assert(chunk@.take(chunk@.len() as int) == chunk@);
        }
        Ok(())
    }

    /// Removes the first `n` occupied bytes.
    pub(crate) fn drop_front(&mut self, n: usize)
        requires
            old(self).wf(),
            n <= old(self).contents().len(),
        ensures
            final(self).wf(),
            final(self).cap == old(self).cap,
            final(self).contents() == old(self).contents().skip(n as int),
    {
        let mut rest: Vec<u8> = Vec::new();
        let mut i: usize = n;
        while i < self.buf.len()
            invariant
                n <= i <= self.buf@.len(),
                self.buf@ == old(self).buf@,
                rest@ == old(self).buf@.subrange(n as int, i as int),
            decreases self.buf@.len() - i,
        {
            rest.push(self.buf[i]);
            i += 1;
            proof {
                assert(old(self).buf@.subrange(n as int, i as int) == old(self).buf@.subrange(
                    n as int,
                    i - 1,
                ) + seq![old(self).buf@[i - 1]]);
            }
        }
        proof {
            assert(rest@ =~= old(self).buf@.skip(n as int));
        }
        self.buf = rest;
    }

    /// Scans the occupied bytes from the front for the synchronization
    /// marker, discards everything before the first occurrence — or the
    /// whole occupied region when there is none — and reports whether a
    /// marker was found. Idempotent: with the front already on a marker it
    /// is a no-op returning true.
    pub fn skip_to_marker(&mut self) -> (found: bool)
        requires
            old(self).wf(),
        ensures
            final(self).wf(),
            final(self).cap == old(self).cap,
            final(self).contents() == spec_skip_to_marker(old(self).contents()),
            found <==> spec_has_marker(old(self).contents()),
            found ==> spec_marker_at(final(self).contents(), 0),
            !found ==> final(self).contents().len() == 0,
    {
        proof {
            lemma_skip_to_marker_aligns(self.buf@);
        }
        let ghost s: Seq<u8> = self.buf@;
        if self.buf.len() > 0 {
            let mut i: usize = 0;
            while i + 1 < self.buf.len()
                invariant
                    self.wf(),
                    self.cap == old(self).cap,
                    self.buf@ == s,
                    s == old(self).buf@,
                    i + 1 <= self.buf@.len(),
                    forall|j: int| 0 <= j < i ==> !spec_marker_at(s, j),
                decreases s.len() - i,
            {
                if self.buf[i] == 0xff && (self.buf[i + 1] & 0xe0) == 0xe0 {
                    proof {
                        assert(spec_marker_at(s, i as int));
                        lemma_skip_to_marker_drop_prefix(s, i as int);
                        assert(spec_skip_to_marker(s.skip(i as int)) == s.skip(i as int));
                    }
                    self.drop_front(i);
                    return true;
                }
                i += 1;
            }
            proof {
                assert(forall|j: int| 0 <= j < s.len() ==> !spec_marker_at(s, j));
                assert(!spec_has_marker(s));
                lemma_skip_to_marker_drop_prefix(s, s.len() as int);
                assert(s.skip(s.len() as int).len() == 0);
            }
        }
        let len: usize = self.buf.len();
        self.drop_front(len);
        proof {
            assert(s.skip(s.len() as int) =~= self.buf@);
        }
        false
    }

    /// True when the front of the occupied region begins with a valid
    /// decodable-unit header.
    pub fn is_aligned(&self) -> (r: bool)
        requires
            self.wf(),
        ensures
            r == (spec_parse_unit(self.contents()) is Some),
    {
        parse_unit(&self.buf).is_ok()
    }

    /// Parses the unit header at the front without consuming anything: a
    /// read-only probe. Fails exactly when the front is not aligned or the
    /// header is malformed, and says which.
    pub fn peek_unit_info(&self) -> (r: Result<UnitInfo, ParseError>)
        requires
            self.wf(),
        ensures
            r matches Ok(u) ==> spec_parse_unit(self.contents()) == Some(u),
            r is Err ==> spec_parse_unit(self.contents()) is None,
            self.contents().len() < 4 ==> r == Err::<UnitInfo, ParseError>(ParseError::Truncated),
            self.contents().len() >= 4 && !spec_marker_at(self.contents(), 0) ==> r == Err::<
                UnitInfo,
                ParseError,
            >(ParseError::NotAligned),
            self.contents().len() >= 4 && spec_marker_at(self.contents(), 0) && spec_parse_unit(
                self.contents(),
            ) is None ==> r == Err::<UnitInfo, ParseError>(ParseError::InvalidHeader),
    {
        parse_unit(&self.buf)
    }

    /// Hands the aligned unit at the front to the decode step and consumes
    /// the bytes the step took. On success the produced sample count is
    /// returned and the reservoir front has moved forward by whole units
    /// only; on any failure the reservoir is left exactly as it was, so
    /// alignment is never lost by a failed decode.
    pub fn decode_next(&mut self, codec: &mut Codec, out: &mut Vec<i16>) -> (r: Result<
        usize,
        DecodeError,
    >)
        requires
            old(self).wf(),
            old(out)@.len() >= MAX_BLOCK_SAMPLES,
        ensures
            final(self).wf(),
            final(self).cap == old(self).cap,
            final(out)@.len() == old(out)@.len(),
            r matches Ok(n) ==> {
                &&& spec_parse_unit(old(self).contents()) matches Some(u) && n == u.samples
                    && u.layer == MpegLayer::L3
                &&& n <= MAX_BLOCK_SAMPLES
                &&& final(self).contents().len() + 4 <= old(self).contents().len()
                &&& exists|k: int|
                    4 <= k <= old(self).contents().len() && final(self).contents() == old(
                        self,
                    ).contents().skip(k)
            },
            r is Err ==> final(self).contents() == old(self).contents(),
            r == Err::<usize, DecodeError>(DecodeError::NotAligned) <==> spec_parse_unit(
                old(self).contents(),
            ) is None,
            r == Err::<usize, DecodeError>(DecodeError::Unsupported) <==> (spec_parse_unit(
                old(self).contents(),
            ) matches Some(u) && u.layer != MpegLayer::L3),
            (spec_parse_unit(old(self).contents()) matches Some(u) && u.layer == MpegLayer::L3
                && old(self).contents().len() < u.unit_len) ==> r == Err::<
                usize,
                DecodeError,
            >(DecodeError::NeedMoreData),
    {
        let info = match parse_unit(&self.buf) {
            Ok(info) => info,
            Err(_) => {
                return Err(DecodeError::NotAligned);
            },
        };
        proof {
            lemma_parse_unit_bounds(self.buf@, info);
        }
        if !(matches!(info.layer, MpegLayer::L3)) {
            return Err(DecodeError::Unsupported);
        }
        if self.buf.len() < info.unit_len as usize {
            return Err(DecodeError::NeedMoreData);
        }
        let len_before: usize = self.buf.len();
        match codec.decode_raw(&self.buf, out) {
            Ok(remaining) => {
                let consumed: usize = len_before - remaining;
                self.drop_front(consumed);
                Ok(info.samples as usize)
            },
            Err(e) => Err(e),
        }
    }
}

} // verus!
