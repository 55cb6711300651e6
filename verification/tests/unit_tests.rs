use audio_pipeline::errors::{OverflowError, ParseError};
use audio_pipeline::header::{parse_unit, MpegLayer, MpegVersion};
use audio_pipeline::reservoir::Reservoir;
use audio_pipeline::ring::OutRing;
use audio_pipeline::source::MemorySource;
use audio_pipeline::TimeSource;

fn frame_header(b1: u8, b2: u8, b3: u8) -> Vec<u8> {
    vec![0xff, b1, b2, b3]
}

#[test]
fn parse_valid_mpeg1_layer3_stereo() {
    let h = frame_header(0xfb, 0x90, 0x00);
    let u = parse_unit(&h).unwrap();
    assert_eq!(u.version, MpegVersion::V1);
    assert_eq!(u.layer, MpegLayer::L3);
    assert_eq!(u.channels, 2);
    assert_eq!(u.sample_rate_hz, 44100);
    assert_eq!(u.bitrate_kbps, 128);
    assert_eq!(u.samples, 2304);
    assert_eq!(u.unit_len, 417);
}

#[test]
fn parse_valid_mpeg1_layer3_mono_padded() {
    let h = frame_header(0xfb, 0x92, 0xc0);
    let u = parse_unit(&h).unwrap();
    assert_eq!(u.channels, 1);
    assert_eq!(u.samples, 1152);
    assert_eq!(u.unit_len, 418);
}

#[test]
fn parse_valid_mpeg2_layer3() {
    let h = frame_header(0xf3, 0x90, 0x00);
    let u = parse_unit(&h).unwrap();
    assert_eq!(u.version, MpegVersion::V2);
    assert_eq!(u.layer, MpegLayer::L3);
    assert_eq!(u.sample_rate_hz, 22050);
    assert_eq!(u.bitrate_kbps, 80);
    assert_eq!(u.samples, 1152);
    assert_eq!(u.unit_len, 72 * 80000 / 22050);
}

#[test]
fn parse_errors_name_what_is_missing() {
    let short = vec![0xffu8, 0xfb, 0x90];
    assert_eq!(parse_unit(&short), Err(ParseError::Truncated));
    let unmarked = vec![0x00u8, 0x00, 0x00, 0x00];
    assert_eq!(parse_unit(&unmarked), Err(ParseError::NotAligned));
    // Reserved version bits.
    let bad_version = frame_header(0xe8, 0x90, 0x00);
    assert_eq!(parse_unit(&bad_version), Err(ParseError::InvalidHeader));
    // Free-format bitrate index.
    let free_bitrate = frame_header(0xfb, 0x00, 0x00);
    assert_eq!(parse_unit(&free_bitrate), Err(ParseError::InvalidHeader));
    // Reserved sample-rate index.
    let bad_rate = frame_header(0xfb, 0x9c, 0x00);
    assert_eq!(parse_unit(&bad_rate), Err(ParseError::InvalidHeader));
}

#[test]
fn reservoir_accepts_exactly_what_fits() {
    let mut r = Reservoir::new(2048);
    assert_eq!(r.free_space(), 2048);
    let too_big = vec![0u8; 2049];
    assert_eq!(r.accept_chunk(&too_big), Err(OverflowError));
    assert_eq!(r.free_space(), 2048);
    let exact = vec![0u8; 2048];
    assert_eq!(r.accept_chunk(&exact), Ok(()));
    assert_eq!(r.occupied(), 2048);
    assert_eq!(r.free_space(), 0);
}

#[test]
fn five_chunks_overflow_until_consumption() {
    let mut r = Reservoir::new(2048);
    let chunk = vec![0u8; 512];
    for expected_free in [1536usize, 1024, 512, 0] {
        assert_eq!(r.accept_chunk(&chunk), Ok(()));
        assert_eq!(r.free_space(), expected_free);
    }
    assert_eq!(r.accept_chunk(&chunk), Err(OverflowError));
    assert_eq!(r.occupied(), 2048);
    // Consumption frees space: no marker in the zeros, so the whole
    // occupied region is discarded.
    assert!(!r.skip_to_marker());
    assert_eq!(r.free_space(), 2048);
    assert_eq!(r.accept_chunk(&chunk), Ok(()));
}

#[test]
fn skip_to_marker_is_idempotent() {
    let mut r = Reservoir::new(64);
    let bytes = vec![0x00u8, 0x11, 0xff, 0xf0, 0x12];
    r.accept_chunk(&bytes).unwrap();
    assert!(r.skip_to_marker());
    assert_eq!(r.occupied(), 3);
    assert!(r.skip_to_marker());
    assert_eq!(r.occupied(), 3);
}

#[test]
fn all_zero_source_discards_everything() {
    let mut r = Reservoir::new(2048);
    let zeros = vec![0u8; 2048];
    r.accept_chunk(&zeros).unwrap();
    assert!(!r.skip_to_marker());
    assert_eq!(r.occupied(), 0);
    assert_eq!(r.peek_unit_info(), Err(ParseError::Truncated));
    assert!(!r.is_aligned());
}

#[test]
fn peek_does_not_consume() {
    let mut r = Reservoir::new(64);
    let h = frame_header(0xfb, 0x90, 0x00);
    r.accept_chunk(&h).unwrap();
    assert!(r.is_aligned());
    let u = r.peek_unit_info().unwrap();
    assert_eq!(u.samples, 2304);
    assert_eq!(r.occupied(), 4);
    let again = r.peek_unit_info().unwrap();
    assert_eq!(again, u);
}

#[test]
fn ring_pushes_atomically_within_free_space() {
    let mut ring = OutRing::new(4096);
    assert_eq!(ring.available(), 4096);
    let block = vec![0i16; 100];
    assert_eq!(ring.push(&block), Ok(()));
    assert_eq!(ring.available(), 3896);
    let oversized = vec![0i16; 1949];
    assert_eq!(ring.push(&oversized), Err(OverflowError));
    assert_eq!(ring.available(), 3896);
    ring.drain(50);
    assert_eq!(ring.available(), 3996);
    ring.drain(4096);
    assert_eq!(ring.available(), 4096);
}

#[test]
fn memory_source_hands_out_fixed_chunks() {
    let mut bytes = vec![0u8; 1300];
    for (i, b) in bytes.iter_mut().enumerate() {
        *b = (i % 251) as u8;
    }
    let mut src = MemorySource::new(bytes.clone());
    assert!(!src.is_exhausted());
    let c1 = src.next_chunk().unwrap();
    assert_eq!(c1.as_slice(), &bytes[0..512]);
    let c2 = src.next_chunk().unwrap();
    assert_eq!(c2.as_slice(), &bytes[512..1024]);
    let c3 = src.next_chunk().unwrap();
    assert_eq!(c3.as_slice(), &bytes[1024..1300]);
    assert!(src.is_exhausted());
    assert!(src.next_chunk().is_none());
}

#[test]
fn timestamps_are_fixed_at_the_epoch() {
    let t = TimeSource.get_timestamp();
    assert_eq!(t.year_since_1970, 0);
    assert_eq!(t.zero_indexed_month, 0);
    assert_eq!(t.zero_indexed_day, 0);
    assert_eq!(t.hours, 0);
    assert_eq!(t.minutes, 0);
    assert_eq!(t.seconds, 0);
}
