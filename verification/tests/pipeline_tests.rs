use audio_pipeline::codec::Codec;
use audio_pipeline::errors::DecodeError;
use audio_pipeline::header::MAX_BLOCK_SAMPLES;
use audio_pipeline::pipeline::{DriveState, Pipeline};
use audio_pipeline::reservoir::Reservoir;
use audio_pipeline::ring::OutRing;
use audio_pipeline::source::MemorySource;

use threepm::easy_mode::EasyMode;

/// One MPEG1 layer 3 unit: 128 kbit/s, 44.1 kHz, stereo, 417 bytes, with
/// all-zero side information and main data (silence).
fn silent_frame() -> Vec<u8> {
    let mut f = vec![0u8; 417];
    f[0] = 0xff;
    f[1] = 0xfb;
    f[2] = 0x90;
    f[3] = 0x00;
    f
}

fn stream_of_frames(n: usize) -> Vec<u8> {
    let mut s = Vec::new();
    for _ in 0..n {
        s.extend_from_slice(&silent_frame());
    }
    s
}

#[test]
fn no_push_below_the_headroom_threshold() {
    // Pending block of 100 samples is 200 bytes; the policy pushes only
    // when more than 400 bytes are free.
    let mut ring = OutRing::new(4096);
    let filler = vec![0i16; 1898];
    ring.push(&filler).unwrap();
    assert_eq!(ring.available(), 300);

    let mut pipe = Pipeline::new(2048);
    pipe.pending = vec![0i16; 100];
    assert!(!pipe.wants_push(300));
    assert!(!pipe.try_deliver(&mut ring));
    assert_eq!(pipe.pending.len(), 100);
    assert_eq!(ring.available(), 300);

    // Exactly at the threshold the push is still withheld.
    assert!(!pipe.wants_push(400));
    // One byte above it the push goes through.
    assert!(pipe.wants_push(401));
    ring.drain(4096);
    assert_eq!(ring.available(), 4096);
    assert!(pipe.try_deliver(&mut ring));
    assert_eq!(pipe.pending.len(), 0);
    assert_eq!(ring.available(), 4096 - 200);
}

#[test]
fn threshold_boundary_is_strict() {
    let mut pipe = Pipeline::new(64);
    pipe.pending = vec![0i16; 100];
    let mut at_threshold = OutRing::new(400);
    assert!(!pipe.try_deliver(&mut at_threshold));
    assert_eq!(pipe.pending.len(), 100);
    let mut above_threshold = OutRing::new(401);
    assert!(pipe.try_deliver(&mut above_threshold));
    assert_eq!(pipe.pending.len(), 0);
    assert_eq!(above_threshold.available(), 201);
}

#[test]
fn empty_pending_block_is_never_pushed() {
    let mut ring = OutRing::new(4096);
    let mut pipe = Pipeline::new(2048);
    assert!(!pipe.wants_push(4096));
    assert!(!pipe.try_deliver(&mut ring));
    assert_eq!(ring.available(), 4096);
}

#[test]
fn preroll_walks_filling_then_syncing_then_streaming() {
    let mut pipe = Pipeline::new(2048);
    let mut ring = OutRing::new(4096);
    let mut src = MemorySource::new(stream_of_frames(2));
    assert_eq!(pipe.state, DriveState::Filling);
    assert_eq!(pipe.step(&mut ring, &mut src), DriveState::Syncing);
    assert_eq!(pipe.step(&mut ring, &mut src), DriveState::Streaming);
}

#[test]
fn all_zero_source_stops_without_output() {
    let mut pipe = Pipeline::new(2048);
    let mut ring = OutRing::new(4096);
    let mut src = MemorySource::new(vec![0u8; 1024]);
    let mut steps = 0;
    while pipe.step(&mut ring, &mut src) != DriveState::Stopped {
        steps += 1;
        assert!(steps < 100, "driver failed to stop");
    }
    assert_eq!(ring.available(), 4096);
}

#[test]
fn round_trip_matches_reference_decoder() {
    let stream = stream_of_frames(4);

    // Repeated decode_next calls over the whole uncorrupted stream.
    let mut res = Reservoir::new(2048);
    let mut codec = Codec::new();
    let mut out = vec![0i16; MAX_BLOCK_SAMPLES];
    let mut fed = 0usize;
    let mut total = 0usize;
    let mut guard = 0;
    loop {
        guard += 1;
        assert!(guard < 10_000, "decode loop failed to finish");
        while res.free_space() >= 512 && fed < stream.len() {
            let end = (fed + 512).min(stream.len());
            res.accept_chunk(&stream[fed..end].to_vec()).unwrap();
            fed = end;
        }
        if !res.is_aligned() {
            res.skip_to_marker();
            if res.occupied() == 0 && fed >= stream.len() {
                break;
            }
            continue;
        }
        match res.decode_next(&mut codec, &mut out) {
            Ok(n) => total += n,
            Err(_) => {
                if fed >= stream.len() {
                    break;
                }
            }
        }
    }

    // Decode the same bytes with the decoder library used directly.
    let mut easy = EasyMode::new();
    let mut buf = [0i16; 4096];
    let mut fed = 0usize;
    let mut reference = 0usize;
    let mut rounds = 0;
    loop {
        while easy.buffer_free() >= 512 && fed < stream.len() {
            let end = (fed + 512).min(stream.len());
            easy.add_data(&stream[fed..end]);
            fed = end;
        }
        if !easy.mp3_decode_ready() {
            if fed >= stream.len() {
                break;
            }
            continue;
        }
        match easy.decode(&mut buf) {
            Ok(n) => reference += n,
            Err(_) => break,
        }
        rounds += 1;
        assert!(rounds < 10_000, "reference decoder failed to finish");
    }

    assert_eq!(total, reference);
}

#[test]
fn driver_delivers_whole_units_until_exhaustion() {
    // Drive the full loop over four units, with the hardware model drained
    // after every iteration, and add up what was delivered. The driver
    // stops once the source is exhausted and the pending block is flushed,
    // so the final unit still sitting in the reservoir is not decoded:
    // three whole stereo units of 2304 samples each come through.
    let stream = stream_of_frames(4);
    let mut pipe = Pipeline::new(2048);
    let mut ring = OutRing::new(65536);
    let mut src = MemorySource::new(stream);
    let mut delivered = 0usize;
    let mut steps = 0;
    while pipe.step(&mut ring, &mut src) != DriveState::Stopped {
        let queued = (65536 - ring.available()) / 2;
        delivered += queued;
        ring.drain(65536);
        steps += 1;
        assert!(steps < 10_000, "driver failed to stop");
    }
    let queued = (65536 - ring.available()) / 2;
    delivered += queued;
    assert_eq!(delivered, 3 * 2304);
}

#[test]
fn layer_one_units_are_refused_without_calling_the_codec() {
    // A valid MPEG1 layer 1 header: parseable, but not a format the
    // decode step handles, so the unit is reported unsupported and the
    // reservoir is left untouched.
    let mut res = Reservoir::new(2048);
    let mut unit = vec![0u8; 600];
    unit[0] = 0xff;
    unit[1] = 0xff;
    unit[2] = 0x90;
    unit[3] = 0x00;
    res.accept_chunk(&unit).unwrap();
    assert!(res.is_aligned());
    let mut codec = Codec::new();
    let mut out = vec![0i16; MAX_BLOCK_SAMPLES];
    assert_eq!(res.decode_next(&mut codec, &mut out), Err(DecodeError::Unsupported));
    assert_eq!(res.occupied(), 600);
}

#[test]
fn short_unit_asks_for_more_data() {
    // A layer 3 header whose 417-byte unit is only partially present:
    // the codec is not called and the reservoir keeps every byte.
    let mut res = Reservoir::new(2048);
    let header = vec![0xffu8, 0xfb, 0x90, 0x00];
    res.accept_chunk(&header).unwrap();
    let mut codec = Codec::new();
    let mut out = vec![0i16; MAX_BLOCK_SAMPLES];
    assert_eq!(res.decode_next(&mut codec, &mut out), Err(DecodeError::NeedMoreData));
    assert_eq!(res.occupied(), 4);
}

#[test]
fn decode_order_is_input_order() {
    // Two deliveries, drained in between: what leaves first was decoded
    // first; the second block never overtakes it.
    let mut pipe = Pipeline::new(64);
    pipe.pending = vec![1i16, 2, 3];
    let mut ring = OutRing::new(1024);
    assert!(pipe.try_deliver(&mut ring));
    pipe.pending = vec![4i16, 5];
    assert!(pipe.try_deliver(&mut ring));
    assert_eq!(ring.available(), 1024 - 10);
    assert_eq!(ring.data.as_slice(), &[1i16, 2, 3, 4, 5]);
    ring.drain(2);
    assert_eq!(ring.data.as_slice(), &[3i16, 4, 5]);
}
