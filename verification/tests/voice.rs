use airtalk::engine::vad::pcm::{decode_into, encode};
use airtalk::engine::vad::silero::{
    extend_ring, ms_to_samples, samples_to_ms, segment_bytes, DisabledVadEngine, SegmentConfig,
    SileroEngine, Verdict, CONTEXT_SAMPLES, FRAME_SAMPLES, MAX_SPEECH_SAMPLES,
};
use airtalk::engine::vad::{SpeechSegment, VadEngine};

const QUIET: Verdict = Verdict { speech: false, voiced: false };
const SPEECH: Verdict = Verdict { speech: true, voiced: true };
/// Below the threshold for speech, but not silent.
const FAINT: Verdict = Verdict { speech: false, voiced: true };

fn engine() -> SileroEngine {
    SileroEngine::new(SegmentConfig { min_segment_ms: 60, end_silence_ms: 64, padding_ms: 32 })
}

fn frame(value: i16) -> Vec<i16> {
    vec![value; FRAME_SAMPLES]
}

fn samples(segment: &SpeechSegment) -> Vec<i16> {
    let mut out = Vec::new();
    decode_into(&mut out, &segment.pcm);
    out
}

/// A float's way through the model: from the wire to -1..1 and back.
fn through_floats(s: i16) -> i16 {
    let f = s as f32 / 32768.0;
    (f.clamp(-1.0, 1.0) * 32767.0) as i16
}

#[test]
fn segment_samples_match_the_float_path() {
    for s in i16::MIN..=i16::MAX {
        let bytes = segment_bytes(&[s]);
        assert_eq!(i16::from_le_bytes([bytes[0], bytes[1]]), through_floats(s), "{s}");
    }
}

#[test]
fn samples_read_back() {
    let all: Vec<i16> = (i16::MIN..=i16::MAX).collect();
    let bytes = encode(&all);
    assert_eq!(bytes, all.iter().flat_map(|s| s.to_le_bytes()).collect::<Vec<_>>());
    let mut out = vec![7];
    decode_into(&mut out, &bytes);
    assert_eq!(out[0], 7);
    assert_eq!(out[1..], all);
    // An odd last byte is no sample.
    let mut odd = Vec::new();
    decode_into(&mut odd, &[1, 0, 9]);
    assert_eq!(odd, vec![1]);
}

#[test]
fn speech_is_cut_at_silence() {
    let mut e = engine();
    assert!(e.process_frame(&frame(1), QUIET).is_none());
    assert!(e.process_frame(&frame(2), QUIET).is_none());
    assert!(e.process_frame(&frame(3), SPEECH).is_none());
    assert!(e.process_frame(&frame(4), SPEECH).is_none());
    assert!(e.process_frame(&frame(5), QUIET).is_none());
    let segment = e.process_frame(&frame(6), QUIET).unwrap();
    // One frame of padding before the speech and one behind it.
    let got = samples(&segment);
    let expected: Vec<i16> = [2, 3, 4, 5].iter().flat_map(|v| frame(*v)).collect();
    assert_eq!(got, expected.iter().map(|s| through_floats(*s)).collect::<Vec<_>>());
    assert!(e.finish().is_none());
}

#[test]
fn faint_speech_does_not_end_a_segment() {
    let mut e = engine();
    assert!(e.process_frame(&frame(1), FAINT).is_none());
    e.process_frame(&frame(2), SPEECH);
    e.process_frame(&frame(3), QUIET);
    e.process_frame(&frame(4), FAINT);
    assert!(e.process_frame(&frame(5), QUIET).is_none());
    let segment = e.process_frame(&frame(6), QUIET).unwrap();
    assert_eq!(samples(&segment).len(), 5 * FRAME_SAMPLES);
}

#[test]
fn short_speech_is_dropped() {
    let mut e = SileroEngine::new(SegmentConfig {
        min_segment_ms: 200,
        end_silence_ms: 32,
        padding_ms: 0,
    });
    e.process_frame(&frame(1), SPEECH);
    assert!(e.process_frame(&frame(2), QUIET).is_none());
    assert!(e.finish().is_none());
}

#[test]
fn finish_gives_what_was_open() {
    let mut e = engine();
    for v in 1..=4 {
        e.process_frame(&frame(v), SPEECH);
    }
    let segment = e.finish().unwrap();
    assert_eq!(samples(&segment).len(), 4 * FRAME_SAMPLES);
    assert!(e.finish().is_none());
}

#[test]
fn endless_speech_is_cut() {
    let mut e = engine();
    let frames = MAX_SPEECH_SAMPLES / FRAME_SAMPLES + 2;
    let mut cut = 0;
    for _ in 0..frames {
        if e.process_frame(&frame(1), SPEECH).is_some() {
            cut += 1;
        }
    }
    assert_eq!(cut, 1);
}

#[test]
fn frames_come_out_whole() {
    let mut e = engine();
    e.push_pcm(&encode(&vec![5; FRAME_SAMPLES - 1]));
    assert!(e.next_frame().is_none());
    e.push_pcm(&encode(&[6, 7]));
    let first = e.next_frame().unwrap();
    assert_eq!(first.len(), FRAME_SAMPLES);
    assert_eq!(first[FRAME_SAMPLES - 1], 6);
    assert!(e.next_frame().is_none());
}

#[test]
fn model_sees_the_end_of_the_last_frame() {
    let mut e = engine();
    let first: Vec<i16> = (0..FRAME_SAMPLES as i16).collect();
    let input = e.model_input(&first);
    assert_eq!(input[..CONTEXT_SAMPLES], vec![0; CONTEXT_SAMPLES]);
    assert_eq!(input[CONTEXT_SAMPLES..], first);
    e.keep_context(&first);
    let input = e.model_input(&frame(9));
    assert_eq!(input[..CONTEXT_SAMPLES], first[FRAME_SAMPLES - CONTEXT_SAMPLES..]);
}

#[test]
fn ring_keeps_the_latest() {
    let mut ring = vec![1, 2];
    extend_ring(&mut ring, &[3, 4], 3);
    assert_eq!(ring, vec![2, 3, 4]);
    extend_ring(&mut ring, &[5, 6, 7, 8], 3);
    assert_eq!(ring, vec![6, 7, 8]);
    let mut none = vec![];
    extend_ring(&mut none, &[9], 0);
    assert!(none.is_empty());
}

#[test]
fn times_and_samples() {
    assert_eq!(ms_to_samples(100), 1_600);
    assert_eq!(samples_to_ms(1_600), 100);
    assert_eq!(samples_to_ms(15), 0);
}

#[test]
fn disabled_engine_finds_nothing() {
    let mut e = DisabledVadEngine;
    assert!(VadEngine::push_pcm(&mut e, &[0; 64_000]).is_empty());
    assert!(VadEngine::finish(&mut e).is_none());
}

/// Pushes audio in pieces of the given size. Each frame is judged by its first
/// sample.
fn segments_of(bytes: &[u8], size: usize) -> Vec<Vec<i16>> {
    let mut e = engine();
    let mut out = Vec::new();
    for piece in bytes.chunks(size) {
        e.push_pcm(piece);
        while let Some(frame) = e.next_frame() {
            e.keep_context(&frame);
            let verdict = if frame[0] > 0 { SPEECH } else { QUIET };
            out.extend(e.process_frame(&frame, verdict).map(|s| samples(&s)));
        }
    }
    out.extend(e.finish().map(|s| samples(&s)));
    out
}

#[test]
fn cuts_between_pushes_do_not_matter() {
    let levels: [i16; 14] = [-1, -2, 10, 11, -3, -4, -5, 12, -6, -7, -8, 13, 14, 15];
    let audio: Vec<i16> = levels.iter().flat_map(|v| frame(*v)).collect();
    let bytes = encode(&audio);
    let whole = segments_of(&bytes, bytes.len());
    assert_eq!(whole.len(), 3);
    for size in [2, 10, 960, 1022, 1024, 1026, 5000] {
        assert_eq!(segments_of(&bytes, size), whole, "{size}");
    }
}
