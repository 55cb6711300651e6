use vstd::prelude::*;

verus! {

/// Bytes the source provider hands over per request: small against the
/// reservoir capacity, so that a checked admission never fails.
pub const CHUNK_SZ: usize = 512;

/// How many bytes the next chunk of a source holding `rem` bytes carries.
pub open spec fn spec_chunk_len(rem: nat) -> nat {
    if rem < CHUNK_SZ {
        rem
    } else {
        CHUNK_SZ as nat
    }
}

/// A memory-backed source provider: a finite, non-restartable sequence of
/// byte chunks, exhausted when the backing bytes run out.
pub struct MemorySource {
    pub data: Vec<u8>,
    pub pos: usize,
}

impl MemorySource {
    pub open spec fn wf(&self) -> bool {
        self.pos <= self.data@.len()
    }

    /// The bytes not yet handed out.
    pub open spec fn remaining(&self) -> Seq<u8> {
        self.data@.skip(self.pos as int)
    }

    pub fn new(data: Vec<u8>) -> (r: MemorySource)
        ensures
            r.wf(),
            r.remaining() == data@,
            r.data@ == data@,
    {
        let r = MemorySource { data, pos: 0 };
        proof {
            assert(r.data@.skip(0) =~= r.data@);
        }
        r
    }

    /// True once every byte has been handed out; no chunk follows.
    pub fn is_exhausted(&self) -> (r: bool)
        requires
            self.wf(),
        ensures
            r == (self.remaining().len() == 0),
    {
        self.pos >= self.data.len()
    }

    /// The next chunk, at most `CHUNK_SZ` bytes, in stream order; `None`
    /// exactly when the source is exhausted, which is a normal termination
    /// signal and not an error.
    pub fn next_chunk(&mut self) -> (r: Option<Vec<u8>>)
        requires
            old(self).wf(),
        ensures
            final(self).wf(),
            final(self).data@ == old(self).data@,
            old(self).remaining().len() == 0 ==> r is None && final(self).pos == old(self).pos,
            old(self).remaining().len() > 0 ==> (r matches Some(c)
                && c@.len() == spec_chunk_len(old(self).remaining().len() as nat)
                && c@ == old(self).remaining().take(c@.len() as int)
                && final(self).remaining() == old(self).remaining().skip(c@.len() as int)),
    {
        if self.pos >= self.data.len() {
            return None;
        }
        let rem: usize = self.data.len() - self.pos;
        let k: usize = if rem < CHUNK_SZ {
            rem
        } else {
            CHUNK_SZ
        };
        let mut c: Vec<u8> = Vec::new();
        let mut i: usize = 0;
        while i < k
            invariant
                i <= k,
                self.data@ == old(self).data@,
                self.pos == old(self).pos,
                self.pos + k <= self.data@.len(),
                self.data@.len() <= usize::MAX,
                c@ == self.data@.subrange(self.pos as int, self.pos + i),
            decreases k - i,
        {
            c.push(self.data[self.pos + i]);
            i += 1;
            proof {
                assert(self.data@.subrange(self.pos as int, self.pos + i) == self.data@.subrange(
                    self.pos as int,
                    self.pos + i - 1,
                ) + seq![self.data@[self.pos + i - 1]]);
            }
        }
        proof {
            assert(c@ =~= old(self).remaining().take(k as int));
            assert(self.data@.skip(self.pos + k) =~= old(self).remaining().skip(k as int));
        }
        self.pos = self.pos + k;
        Some(c)
    }
}

} // verus!
