use vstd::prelude::*;

use crate::errors::DecodeError;
use crate::header::{spec_parse_unit, MpegLayer};

verus! {

#[verifier::external_type_specification]
#[verifier::external_body]
pub struct ExMp3(threepm::mp3::Mp3);

/// The external decode step: one decodable unit in, one block of PCM
/// samples out. It owns the codec's internal state and nothing else; all
/// buffer bookkeeping stays with the reservoir.
pub struct Codec {
    mp3: threepm::mp3::Mp3,
}

impl Codec {
    /// Relies on threepm's `Mp3::new`: builds a fresh decoder context.
    #[verifier::external_body]
    pub fn new() -> Codec {
        Codec { mp3: threepm::mp3::Mp3::new() }
    }

    /// Relies on threepm's `Mp3::decode` (the Helix `MP3Decode` entry): it
    /// decodes the unit at the front of `data`, writes at most 2304 PCM
    /// samples into `out` in place, and returns how many input bytes are
    /// left. The decoder reads the header, an optional checksum and the
    /// layer-3 side information before it checks any length, so the call
    /// is made only on a whole, aligned layer-3 unit, whose length covers
    /// all of those reads; on success it consumes at least the header.
    /// Underflow errors are reported apart from the rest because the
    /// driver recovers from the two differently: more data against a
    /// resynchronization.
    #[verifier::external_body]
    pub(crate) fn decode_raw(&mut self, data: &Vec<u8>, out: &mut Vec<i16>) -> (r: Result<
        usize,
        DecodeError,
    >)
        requires
            old(out)@.len() >= 2304,
            data@.len() <= 0x7fffffff,
            spec_parse_unit(data@) matches Some(u) && u.layer == MpegLayer::L3 && data@.len()
                >= u.unit_len,
        ensures
            final(out)@.len() == old(out)@.len(),
            r matches Ok(remaining) ==> remaining + 4 <= data@.len(),
            r matches Err(e) ==> (e == DecodeError::NeedMoreData || e == DecodeError::CodecFailed),
    {
        match self.mp3.decode(data.as_slice(), data.len() as i32, out.as_mut_slice()) {
            Ok(remaining) => Ok(remaining as usize),
            Err(threepm::mp3::DecodeErr::InDataUnderflow) => Err(DecodeError::NeedMoreData),
            Err(threepm::mp3::DecodeErr::MaindataUnderflow) => Err(DecodeError::NeedMoreData),
            Err(_) => Err(DecodeError::CodecFailed),
        }
    }
}

} // verus!
