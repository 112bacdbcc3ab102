use mic_stream::capture::{downsample, quantize, quantize_into, DOWNSAMPLE_STRIDE};
use mic_stream::ring_buffer::{RingBuffer, CAPACITY_FACTOR};
use mic_stream::session::{window_calls, DecoderCall, DecoderSession};
use mic_stream::window::{
    check_channels, downmix, feature_shape, kept_features, ConfigError, FeatureShape, MelBins,
};

fn scaled(v: f32) -> i32 {
    (v * 32768.0).round() as i32
}

#[test]
fn ring_buffer_append_keeps_order() {
    let mut b = RingBuffer::new();
    assert_eq!(b.len(), 0);
    b.append(&[1, 2, 3]);
    b.append(&[4, 5]);
    assert_eq!(b.snapshot(), vec![1, 2, 3, 4, 5]);
}

#[test]
fn trim_keeps_last_forty_of_hundred() {
    let mut b = RingBuffer::new();
    let data: Vec<i16> = (0..100).map(|i| i as i16).collect();
    b.append(&data);
    b.trim_to(40);
    let expected: Vec<i16> = (60..100).map(|i| i as i16).collect();
    assert_eq!(b.snapshot(), expected);
}

#[test]
fn trim_shorter_buffer_is_unchanged() {
    let mut b = RingBuffer::new();
    b.append(&[7, 8, 9]);
    b.trim_to(3);
    assert_eq!(b.snapshot(), vec![7, 8, 9]);
    b.trim_to(0);
    assert_eq!(b.len(), 0);
}

#[test]
fn buffer_bound_holds_after_each_cycle() {
    let mut b = RingBuffer::new();
    let lengths = [10usize, 10, 3, 50, 1, 1, 7, 0, 20];
    let mut next: i16 = 0;
    for _ in 0..5 {
        for &l in lengths.iter() {
            let chunk: Vec<i16> = (0..l)
                .map(|_| {
                    next = next.wrapping_add(1);
                    next
                })
                .collect();
            b.append_and_trim(&chunk, CAPACITY_FACTOR);
            assert!(b.len() <= CAPACITY_FACTOR * l);
            if l > 0 {
                let snap = b.snapshot();
                assert_eq!(snap[snap.len() - l..], chunk[..]);
            }
        }
    }
}

#[test]
fn cycle_with_small_factor_keeps_recent_samples() {
    let mut b = RingBuffer::new();
    b.append_and_trim(&[1, 2], 2);
    b.append_and_trim(&[3, 4], 2);
    b.append_and_trim(&[5, 6], 2);
    assert_eq!(b.snapshot(), vec![3, 4, 5, 6]);
    b.append_and_trim(&[7], 2);
    assert_eq!(b.snapshot(), vec![6, 7]);
}

#[test]
fn cycle_with_huge_factor_trims_nothing() {
    let mut b = RingBuffer::new();
    b.append_and_trim(&[1, 2, 3], usize::MAX);
    b.append_and_trim(&[4, 5], usize::MAX);
    assert_eq!(b.snapshot(), vec![1, 2, 3, 4, 5]);
}

#[test]
fn downsample_nine_by_three() {
    let data: Vec<i16> = vec![10, 11, 12, 13, 14, 15, 16, 17, 18];
    assert_eq!(downsample(&data, 3), vec![10, 13, 16]);
    assert_eq!(downsample(&data, DOWNSAMPLE_STRIDE), vec![10, 13, 16]);
}

#[test]
fn downsample_partial_stride_and_edges() {
    let data: Vec<i16> = vec![1, 2, 3, 4, 5, 6, 7];
    assert_eq!(downsample(&data, 3), vec![1, 4, 7]);
    assert_eq!(downsample(&data, 1), data);
    assert_eq!(downsample(&data, 100), vec![1]);
    assert_eq!(downsample(&[], 3), Vec::<i16>::new());
}

#[test]
fn quantization_pins_extremes() {
    assert_eq!(quantize(scaled(1.0)), 32767);
    assert_eq!(quantize(scaled(-1.0)), -32768);
    assert_eq!(quantize(scaled(0.0)), 0);
    assert_eq!(quantize(scaled(0.5)), 16384);
    assert_eq!(quantize(scaled(-0.25)), -8192);
    assert_eq!(quantize(scaled(2.0)), 32767);
    assert_eq!(quantize(scaled(-3.0)), -32768);
}

#[test]
fn quantize_into_appends_in_order() {
    let mut acc: Vec<i16> = vec![5];
    let input: Vec<i32> = vec![100, 40000, -40000, -7];
    quantize_into(&mut acc, &input);
    assert_eq!(acc, vec![5, 100, 32767, -32768, -7]);
}

#[test]
fn downmix_stereo_takes_first_channel() {
    let (l0, r0, l1, r1, l2, r2) = (1i16, -1i16, 2i16, -2i16, 3i16, -3i16);
    let interleaved = vec![l0, r0, l1, r1, l2, r2];
    assert_eq!(downmix(&interleaved, 2), vec![l0, l1, l2]);
    assert_eq!(downmix(&interleaved, 1), interleaved);
    assert_eq!(downmix(&[1, 2, 3, 4, 5], 2), vec![1, 3, 5]);
}

#[test]
fn mel_bins_are_checked() {
    assert_eq!(MelBins::from_count(80), Ok(MelBins::Bins80));
    assert_eq!(MelBins::from_count(128), Ok(MelBins::Bins128));
    assert_eq!(MelBins::from_count(64), Err(ConfigError::UnsupportedMelBins(64)));
    assert_eq!(MelBins::Bins80.count(), 80);
    assert_eq!(MelBins::Bins128.count(), 128);
    assert_eq!(check_channels(2), Ok(2));
    assert_eq!(check_channels(0), Err(ConfigError::NoChannels));
}

#[test]
fn feature_shape_divides_and_truncates() {
    assert_eq!(
        feature_shape(80, 8000),
        FeatureShape { batch: 1, mel_bins: 80, frames: 100 }
    );
    assert_eq!(feature_shape(80, 8005).frames, 100);
    assert_eq!(kept_features(80, 8005), 8000);
    assert_eq!(kept_features(80, 8000), 8000);
    assert_eq!(feature_shape(128, 100).frames, 0);
    assert_eq!(kept_features(128, 100), 0);
}

#[test]
fn window_calls_order() {
    assert_eq!(
        window_calls(0),
        vec![DecoderCall::SetLanguageToken, DecoderCall::Run, DecoderCall::ResetState]
    );
    assert_eq!(window_calls(1), vec![DecoderCall::Run, DecoderCall::ResetState]);
    let mut s = DecoderSession::new();
    s.windows = u64::MAX;
    let (i, calls) = s.begin_window();
    assert_eq!(i, u64::MAX);
    assert_eq!(calls, vec![DecoderCall::Run, DecoderCall::ResetState]);
    assert_eq!(s.windows, u64::MAX);
}

struct StubDecoder {
    log: Vec<String>,
    shapes: Vec<(usize, usize, usize)>,
    all_zero: Vec<bool>,
}

#[test]
fn silent_window_runs_once_then_resets() {
    let sample_rate = 16000usize;
    let mel_bins = MelBins::from_count(80).unwrap().count();
    let mut buffer = RingBuffer::new();
    buffer.append_and_trim(&vec![0i16; sample_rate], CAPACITY_FACTOR);
    let mut session = DecoderSession::new();
    let mut dec = StubDecoder { log: Vec::new(), shapes: Vec::new(), all_zero: Vec::new() };
    for _ in 0..2 {
        let snap = buffer.snapshot();
        let mono = downmix(&snap, 1);
        let pcm: Vec<f32> = mono.iter().map(|v| *v as f32 / 32768.0).collect();
        assert_eq!(pcm.len(), sample_rate);
        // a stand-in for the spectral kernel: one zero frame per 160 samples
        let features: Vec<f32> = vec![0.0; (pcm.len() / 160) * mel_bins];
        let shape = feature_shape(mel_bins, features.len());
        let kept = kept_features(mel_bins, features.len());
        let (_, calls) = session.begin_window();
        for c in calls {
            match c {
                DecoderCall::SetLanguageToken => dec.log.push("language".to_string()),
                DecoderCall::Run => {
                    dec.log.push("run".to_string());
                    dec.shapes.push((shape.batch, shape.mel_bins, shape.frames));
                    dec.all_zero.push(features[..kept].iter().all(|v| *v == 0.0));
                }
                DecoderCall::ResetState => dec.log.push("reset".to_string()),
            }
        }
        if dec.log.len() == 3 {
            assert_eq!(dec.log, vec!["language", "run", "reset"]);
        }
    }
    assert_eq!(dec.log, vec!["language", "run", "reset", "run", "reset"]);
    assert_eq!(dec.shapes, vec![(1, 80, 100), (1, 80, 100)]);
    assert_eq!(dec.all_zero, vec![true, true]);
}
