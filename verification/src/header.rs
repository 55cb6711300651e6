use vstd::prelude::*;

use crate::errors::ParseError;

verus! {

/// MPEG audio version of a decodable unit.
#[derive(Clone, Copy, Debug, PartialEq, Eq, Structural)]
pub enum MpegVersion {
    V1,
    V2,
    V25,
}

/// MPEG audio layer of a decodable unit.
#[derive(Clone, Copy, Debug, PartialEq, Eq, Structural)]
pub enum MpegLayer {
    L1,
    L2,
    L3,
}

/// Size and format metadata read from a decodable unit's header, without
/// consuming any reservoir bytes.
#[derive(Clone, Copy, Debug, PartialEq, Eq, Structural)]
pub struct UnitInfo {
    pub version: MpegVersion,
    pub layer: MpegLayer,
    /// 1 for mono, 2 otherwise.
    pub channels: u8,
    pub sample_rate_hz: u32,
    pub bitrate_kbps: u32,
    /// Output samples one decode of this unit produces, all channels together.
    pub samples: u32,
    /// Whole unit length in bytes, header included.
    pub unit_len: u32,
}

/// The synchronization marker: eleven set bits starting a unit header.
/// It spans one full byte and the top three bits of the next.
pub open spec fn spec_marker_at(s: Seq<u8>, i: int) -> bool {
    &&& 0 <= i
    &&& i + 1 < s.len()
    &&& s[i] == 0xffu8
    &&& s[i + 1] & 0xe0u8 == 0xe0u8
}

/// Some position of `s` carries the synchronization marker.
pub open spec fn spec_has_marker(s: Seq<u8>) -> bool {
    exists|i: int| spec_marker_at(s, i)
}

/// Version field of the second header byte: 3 is MPEG1, 2 is MPEG2,
/// 0 is MPEG2.5, 1 is reserved.
pub open spec fn spec_version_bits(b1: u8) -> u8 {
    (b1 >> 3) & 3
}

/// Layer field of the second header byte: 3 is layer 1, 2 is layer 2,
/// 1 is layer 3, 0 is reserved.
pub open spec fn spec_layer_bits(b1: u8) -> u8 {
    (b1 >> 1) & 3
}

/// Bitrate of the unit in kbit/s; 0 where the index is free-format or
/// forbidden, both of which this pipeline rejects.
pub open spec fn spec_bitrate_kbps(vbits: u8, lbits: u8, idx: u8) -> u32 {
    if vbits == 3 {
        if lbits == 3 {
            match idx {
                1u8 => 32u32, 2u8 => 64u32, 3u8 => 96u32, 4u8 => 128u32,
                5u8 => 160u32, 6u8 => 192u32, 7u8 => 224u32, 8u8 => 256u32,
                9u8 => 288u32, 10u8 => 320u32, 11u8 => 352u32, 12u8 => 384u32,
                13u8 => 416u32, 14u8 => 448u32, _ => 0u32,
            }
        } else if lbits == 2 {
            match idx {
                1u8 => 32u32, 2u8 => 48u32, 3u8 => 56u32, 4u8 => 64u32,
                5u8 => 80u32, 6u8 => 96u32, 7u8 => 112u32, 8u8 => 128u32,
                9u8 => 160u32, 10u8 => 192u32, 11u8 => 224u32, 12u8 => 256u32,
                13u8 => 320u32, 14u8 => 384u32, _ => 0u32,
            }
        } else {
            match idx {
                1u8 => 32u32, 2u8 => 40u32, 3u8 => 48u32, 4u8 => 56u32,
                5u8 => 64u32, 6u8 => 80u32, 7u8 => 96u32, 8u8 => 112u32,
                9u8 => 128u32, 10u8 => 160u32, 11u8 => 192u32, 12u8 => 224u32,
                13u8 => 256u32, 14u8 => 320u32, _ => 0u32,
            }
        }
    } else {
        if lbits == 3 {
            match idx {
                1u8 => 32u32, 2u8 => 48u32, 3u8 => 56u32, 4u8 => 64u32,
                5u8 => 80u32, 6u8 => 96u32, 7u8 => 112u32, 8u8 => 128u32,
                9u8 => 144u32, 10u8 => 160u32, 11u8 => 176u32, 12u8 => 192u32,
                13u8 => 224u32, 14u8 => 256u32, _ => 0u32,
            }
        } else {
            match idx {
                1u8 => 8u32, 2u8 => 16u32, 3u8 => 24u32, 4u8 => 32u32,
                5u8 => 40u32, 6u8 => 48u32, 7u8 => 56u32, 8u8 => 64u32,
                9u8 => 80u32, 10u8 => 96u32, 11u8 => 112u32, 12u8 => 128u32,
                13u8 => 144u32, 14u8 => 160u32, _ => 0u32,
            }
        }
    }
}

/// Sample rate of the unit in Hz; 0 for the reserved index.
pub open spec fn spec_sample_rate_hz(vbits: u8, idx: u8) -> u32 {
    if vbits == 3 {
        match idx { 0u8 => 44100u32, 1u8 => 48000u32, 2u8 => 32000u32, _ => 0u32 }
    } else if vbits == 2 {
        match idx { 0u8 => 22050u32, 1u8 => 24000u32, 2u8 => 16000u32, _ => 0u32 }
    } else {
        match idx { 0u8 => 11025u32, 1u8 => 12000u32, 2u8 => 8000u32, _ => 0u32 }
    }
}

/// Output samples per channel that one unit decodes to.
pub open spec fn spec_granule_samples(vbits: u8, lbits: u8) -> u32 {
    if lbits == 3 {
        384u32
    } else if lbits == 2 {
        1152u32
    } else if vbits == 3 {
        1152u32
    } else {
        576u32
    }
}

/// Output samples of one unit over all channels.
pub open spec fn spec_total_samples(vbits: u8, lbits: u8, mode: u8) -> u32 {
    if mode == 3 {
        spec_granule_samples(vbits, lbits)
    } else {
        (2 * spec_granule_samples(vbits, lbits)) as u32
    }
}

/// Whole unit length in bytes, from bitrate, sample rate and padding bit.
pub open spec fn spec_unit_len(vbits: u8, lbits: u8, kbps: u32, hz: u32, pad: u8) -> int {
    if lbits == 3 {
        (12 * kbps * 1000 / (hz as int) + pad) * 4
    } else if lbits == 1 && vbits != 3 {
        72 * kbps * 1000 / (hz as int) + pad
    } else {
        144 * kbps * 1000 / (hz as int) + pad
    }
}

/// Header parse at the front of `s`: `Some` exactly when the first four
/// bytes begin with the marker and name a supported version, layer, bitrate
/// and sample rate.
pub open spec fn spec_parse_unit(s: Seq<u8>) -> Option<UnitInfo> {
    if s.len() < 4 {
        None
    } else if !spec_marker_at(s, 0) {
        None
    } else {
        let b1: u8 = s[1];
        let b2: u8 = s[2];
        let b3: u8 = s[3];
        let vbits: u8 = spec_version_bits(b1);
        let lbits: u8 = spec_layer_bits(b1);
        let kbps: u32 = spec_bitrate_kbps(vbits, lbits, (b2 >> 4) & 0xf);
        let hz: u32 = spec_sample_rate_hz(vbits, (b2 >> 2) & 3);
        if vbits == 1 || lbits == 0 || kbps == 0 || hz == 0 {
            None
        } else {
            let mode: u8 = (b3 >> 6) & 3;
            Some(UnitInfo {
                version: if vbits == 3 { MpegVersion::V1 } else if vbits == 2 { MpegVersion::V2 } else { MpegVersion::V25 },
                layer: if lbits == 3 { MpegLayer::L1 } else if lbits == 2 { MpegLayer::L2 } else { MpegLayer::L3 },
                channels: if mode == 3 { 1u8 } else { 2u8 },
                sample_rate_hz: hz,
                bitrate_kbps: kbps,
                samples: spec_total_samples(vbits, lbits, mode),
                unit_len: spec_unit_len(vbits, lbits, kbps, hz, (b2 >> 1) & 1) as u32,
            })
        }
    }
}

/// Whatever the header says, one unit never decodes to more samples than
/// this: two channels of the largest granule count.
pub const MAX_BLOCK_SAMPLES: usize = 2304;

/// No parsed unit claims more output samples than `MAX_BLOCK_SAMPLES`, and
/// every parsed unit claims at least one sample and at least one byte.
pub proof fn lemma_parse_unit_bounds(s: Seq<u8>, u: UnitInfo)
    requires
        spec_parse_unit(s) == Some(u),
    ensures
        0 < u.samples <= MAX_BLOCK_SAMPLES,
        0 < u.unit_len,
{
    let b1: u8 = s[1];
    let b2: u8 = s[2];
    let vbits: u8 = spec_version_bits(b1);
    let lbits: u8 = spec_layer_bits(b1);
    let kbps: u32 = spec_bitrate_kbps(vbits, lbits, (b2 >> 4) & 0xf);
    let hz: u32 = spec_sample_rate_hz(vbits, (b2 >> 2) & 3);
    assert(8 <= kbps <= 448);
    assert(8000 <= hz <= 48000);
    assert(0 < 12 * kbps * 1000 / (hz as int)) by (nonlinear_arith)
        requires 8 <= kbps <= 448 && 8000 <= hz <= 48000;
    assert(0 < 72 * kbps * 1000 / (hz as int)) by (nonlinear_arith)
        requires 8 <= kbps <= 448 && 8000 <= hz <= 48000;
    assert(0 < 144 * kbps * 1000 / (hz as int)) by (nonlinear_arith)
        requires 8 <= kbps <= 448 && 8000 <= hz <= 48000;
}

fn version_bits(b1: u8) -> (r: u8)
    ensures
        r == spec_version_bits(b1),
        r < 4,
{
    proof {
        assert((b1 >> 3) & 3 < 4) by (bit_vector);
    }
    (b1 >> 3) & 3
}

fn layer_bits(b1: u8) -> (r: u8)
    ensures
        r == spec_layer_bits(b1),
        r < 4,
{
    proof {
        assert((b1 >> 1) & 3 < 4) by (bit_vector);
    }
    (b1 >> 1) & 3
}

fn bitrate_kbps(vbits: u8, lbits: u8, idx: u8) -> (r: u32)
    ensures
        r == spec_bitrate_kbps(vbits, lbits, idx),
        r <= 448,
{
    if vbits == 3 {
        if lbits == 3 {
            match idx {
                1u8 => 32u32, 2u8 => 64u32, 3u8 => 96u32, 4u8 => 128u32,
                5u8 => 160u32, 6u8 => 192u32, 7u8 => 224u32, 8u8 => 256u32,
                9u8 => 288u32, 10u8 => 320u32, 11u8 => 352u32, 12u8 => 384u32,
                13u8 => 416u32, 14u8 => 448u32, _ => 0u32,
            }
        } else if lbits == 2 {
            match idx {
                1u8 => 32u32, 2u8 => 48u32, 3u8 => 56u32, 4u8 => 64u32,
                5u8 => 80u32, 6u8 => 96u32, 7u8 => 112u32, 8u8 => 128u32,
                9u8 => 160u32, 10u8 => 192u32, 11u8 => 224u32, 12u8 => 256u32,
                13u8 => 320u32, 14u8 => 384u32, _ => 0u32,
            }
        } else {
            match idx {
                1u8 => 32u32, 2u8 => 40u32, 3u8 => 48u32, 4u8 => 56u32,
                5u8 => 64u32, 6u8 => 80u32, 7u8 => 96u32, 8u8 => 112u32,
                9u8 => 128u32, 10u8 => 160u32, 11u8 => 192u32, 12u8 => 224u32,
                13u8 => 256u32, 14u8 => 320u32, _ => 0u32,
            }
        }
    } else {
        if lbits == 3 {
            match idx {
                1u8 => 32u32, 2u8 => 48u32, 3u8 => 56u32, 4u8 => 64u32,
                5u8 => 80u32, 6u8 => 96u32, 7u8 => 112u32, 8u8 => 128u32,
                9u8 => 144u32, 10u8 => 160u32, 11u8 => 176u32, 12u8 => 192u32,
                13u8 => 224u32, 14u8 => 256u32, _ => 0u32,
            }
        } else {
            match idx {
                1u8 => 8u32, 2u8 => 16u32, 3u8 => 24u32, 4u8 => 32u32,
                5u8 => 40u32, 6u8 => 48u32, 7u8 => 56u32, 8u8 => 64u32,
                9u8 => 80u32, 10u8 => 96u32, 11u8 => 112u32, 12u8 => 128u32,
                13u8 => 144u32, 14u8 => 160u32, _ => 0u32,
            }
        }
    }
}

fn sample_rate_hz(vbits: u8, idx: u8) -> (r: u32)
    ensures
        r == spec_sample_rate_hz(vbits, idx),
        r == 0 || 8000 <= r <= 48000,
{
    if vbits == 3 {
        match idx { 0u8 => 44100u32, 1u8 => 48000u32, 2u8 => 32000u32, _ => 0u32 }
    } else if vbits == 2 {
        match idx { 0u8 => 22050u32, 1u8 => 24000u32, 2u8 => 16000u32, _ => 0u32 }
    } else {
        match idx { 0u8 => 11025u32, 1u8 => 12000u32, 2u8 => 8000u32, _ => 0u32 }
    }
}

fn granule_samples(vbits: u8, lbits: u8) -> (r: u32)
    ensures
        r == spec_granule_samples(vbits, lbits),
        r == 384 || r == 1152 || r == 576,
{
    if lbits == 3 {
        384
    } else if lbits == 2 {
        1152
    } else if vbits == 3 {
        1152
    } else {
        576
    }
}

/// Parses the unit header held in the first four bytes of `buf`, leaving
/// `buf` untouched. The error says what was missing: too few bytes, no
/// marker, or unsupported header fields.
pub fn parse_unit(buf: &Vec<u8>) -> (r: Result<UnitInfo, ParseError>)
    ensures
        r matches Ok(u) ==> spec_parse_unit(buf@) == Some(u),
        r is Err ==> spec_parse_unit(buf@) is None,
        buf@.len() < 4 ==> r == Err::<UnitInfo, ParseError>(ParseError::Truncated),
        buf@.len() >= 4 && !spec_marker_at(buf@, 0) ==> r == Err::<UnitInfo, ParseError>(
            ParseError::NotAligned,
        ),
        buf@.len() >= 4 && spec_marker_at(buf@, 0) && spec_parse_unit(buf@) is None ==> r
            == Err::<UnitInfo, ParseError>(ParseError::InvalidHeader),
{
    if buf.len() < 4 {
        return Err(ParseError::Truncated);
    }
    let b0: u8 = buf[0];
    let b1: u8 = buf[1];
    let b2: u8 = buf[2];
    let b3: u8 = buf[3];
    if !(b0 == 0xff && (b1 & 0xe0) == 0xe0) {
        return Err(ParseError::NotAligned);
    }
    let vbits: u8 = version_bits(b1);
    let lbits: u8 = layer_bits(b1);
    proof {
        assert((b2 >> 4) & 0xf < 16 && (b2 >> 2) & 3 < 4 && (b2 >> 1) & 1 < 2 && (b3 >> 6) & 3 < 4)
            by (bit_vector);
    }
    let kbps: u32 = bitrate_kbps(vbits, lbits, (b2 >> 4) & 0xf);
    let hz: u32 = sample_rate_hz(vbits, (b2 >> 2) & 3);
    if vbits == 1 || lbits == 0 || kbps == 0 || hz == 0 {
        return Err(ParseError::InvalidHeader);
    }
    let pad: u8 = (b2 >> 1) & 1;
    let mode: u8 = (b3 >> 6) & 3;
    let gs: u32 = granule_samples(vbits, lbits);
    let bps: u32 = kbps * 1000;
    let num: u32 = if lbits == 3 {
        12 * bps
    } else if lbits == 1 && vbits != 3 {
        72 * bps
    } else {
        144 * bps
    };
    let quot: u32 = num / hz;
    proof {
        assert(num as int / (hz as int) <= num as int) by (nonlinear_arith)
            requires hz >= 1 && num >= 0;
    }
    let unit_len: u32 = if lbits == 3 {
        (quot + pad as u32) * 4
    } else {
        quot + pad as u32
    };
    Ok(UnitInfo {
        version: if vbits == 3 { MpegVersion::V1 } else if vbits == 2 { MpegVersion::V2 } else { MpegVersion::V25 },
        layer: if lbits == 3 { MpegLayer::L1 } else if lbits == 2 { MpegLayer::L2 } else { MpegLayer::L3 },
        channels: if mode == 3 { 1u8 } else { 2u8 },
        sample_rate_hz: hz,
        bitrate_kbps: kbps,
        samples: if mode == 3 { gs } else { 2 * gs },
        unit_len,
    })
}

} // verus!
