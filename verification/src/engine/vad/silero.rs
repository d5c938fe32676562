//! Segmentation around the Silero voice model.
//!
//! The model itself runs elsewhere: it is handed frames of samples and gives a
//! speech probability for each. This module cuts the audio by those verdicts.
//!
//! * Silence turns into speech at the first frame that counts as speech.
//! * Speech turns into silence when frames that no longer count as voiced have
//!   lasted for the closing silence.
//! * A segment gets up to the padding of audio from before its onset, and up
//!   to the padding of the silence that closed it.
//! * Segments below the minimum length are dropped.

use crate::engine::vad::pcm;
use crate::engine::vad::{SpeechSegment, VadEngine};
use vstd::prelude::*;

verus! {

/// Samples in one frame: 32 ms at 16 kHz.
pub const FRAME_SAMPLES: usize = 512;

/// Milliseconds in one frame.
pub const FRAME_MS: u32 = 32;

/// Speech that reaches five minutes is cut.
pub const MAX_SPEECH_SAMPLES: usize = 4800000;

/// Samples of the previous frame that the model sees before each frame.
pub const CONTEXT_SAMPLES: usize = 64;

/// Durations that govern segmentation, in milliseconds.
#[derive(Debug, Clone, Copy)]
pub struct SegmentConfig {
    /// Shorter segments are dropped.
    pub min_segment_ms: u32,
    /// Silence that closes a segment.
    pub end_silence_ms: u32,
    /// Audio kept before and after the speech.
    pub padding_ms: u32,
}

impl Default for SegmentConfig {
    fn default() -> (r: Self)
        ensures
            r == (SegmentConfig { min_segment_ms: 250, end_silence_ms: 800, padding_ms: 150 }),
    {
        SegmentConfig { min_segment_ms: 250, end_silence_ms: 800, padding_ms: 150 }
    }
}

/// What the model's probability says of one frame.
#[derive(Debug, Clone, Copy, PartialEq, Eq, Structural)]
pub struct Verdict {
    /// The probability reaches the threshold for speech.
    pub speech: bool,
    /// The probability reaches the threshold below which speech pauses.
    pub voiced: bool,
}

#[derive(Debug)]
enum State {
    Silence,
    /// The samples of the segment so far, with the padding before it, and how
    /// long the current pause has lasted.
    Speech { samples: Vec<i16>, silence_ms: u32 },
}

/// A segmenter for one session.
#[derive(Debug)]
pub struct SileroEngine {
    config: SegmentConfig,
    pending: Vec<i16>,
    pre_buf: Vec<i16>,
    state: State,
    trailing: Vec<i16>,
    context: Vec<i16>,
}

// ─── Model ─────────────────────────────────────────────────────────────

/// A speech segment that is being collected.
#[verifier::ext_equal]
pub struct Speech {
    pub samples: Seq<i16>,
    pub silence_ms: int,
}

/// The segmenter's state.
#[verifier::ext_equal]
pub struct VadView {
    /// Samples that do not fill a frame yet.
    pub pending: Seq<i16>,
    /// The latest silence, kept as padding for the next segment.
    pub before: Seq<i16>,
    /// The segment that is open, if any.
    pub speech: Option<Speech>,
    /// The pause at the end of the open segment.
    pub trailing: Seq<i16>,
    /// The end of the last frame that the model has seen.
    pub context: Seq<i16>,
}

/// The last `n` elements of `s`, or all of it.
pub open spec fn last_n(s: Seq<i16>, n: int) -> Seq<i16> {
    if s.len() <= n {
        s
    } else {
        s.skip(s.len() - n)
    }
}

/// The first `n` elements of `s`, or all of it.
pub open spec fn first_n(s: Seq<i16>, n: int) -> Seq<i16> {
    if s.len() <= n {
        s
    } else {
        s.take(n)
    }
}

/// How many samples last `ms` milliseconds.
pub open spec fn samples_in(ms: int) -> int {
    ms * 16000 / 1000
}

/// How many milliseconds `n` samples last, as a 32-bit count.
pub open spec fn ms_in(n: int) -> int {
    n * 1000 / 16000 % 0x1_0000_0000
}

/// A sample on its way from the recording to the recogniser. Scaling down by
/// 32768 and up by 32767 brings it one step closer to zero.
pub open spec fn rescaled(s: i16) -> i16 {
    (if s > 0 {
        s - 1
    } else if s < 0 {
        s + 1
    } else {
        0
    }) as i16
}

/// The bytes of a segment with the given samples.
pub open spec fn segment_pcm(samples: Seq<i16>) -> Seq<u8> {
    pcm::bytes_of(samples.map_values(|s: i16| rescaled(s)))
}

impl VadView {
    pub open spec fn initial() -> VadView {
        VadView {
            pending: seq![],
            before: seq![],
            speech: None,
            trailing: seq![],
            context: Seq::new(CONTEXT_SAMPLES as nat, |i: int| 0i16),
        }
    }

    /// The samples of the open segment when it closes now.
    pub open spec fn closed_samples(self, config: SegmentConfig) -> Seq<i16> {
        match self.speech {
            Some(speech) => speech.samples + first_n(
                self.trailing,
                samples_in(config.padding_ms as int),
            ),
            None => seq![],
        }
    }

    /// The segmenter after its open segment closed. What the padding left of
    /// the pause is padding for the next segment.
    pub open spec fn closed(self, config: SegmentConfig) -> VadView {
        let padding = samples_in(config.padding_ms as int);
        let rest = if self.trailing.len() <= padding {
            seq![]
        } else {
            self.trailing.skip(padding)
        };
        VadView { before: last_n(rest, padding), speech: None, trailing: seq![], ..self }
    }

    /// The samples that closing gives, if they are long enough.
    pub open spec fn closing_segment(self, config: SegmentConfig) -> Option<Seq<i16>> {
        let samples = self.closed_samples(config);
        if ms_in(samples.len() as int) >= config.min_segment_ms {
            Some(samples)
        } else {
            None
        }
    }

    /// The segmenter after a frame, and the samples of the segment that the
    /// frame completed.
    pub open spec fn after_frame(self, config: SegmentConfig, frame: Seq<i16>, verdict: Verdict) -> (
        VadView,
        Option<Seq<i16>>,
    ) {
        match self.speech {
            None => if verdict.speech {
                let speech = Speech { samples: self.before + frame, silence_ms: 0 };
                (VadView { before: seq![], speech: Some(speech), ..self }, None)
            } else {
                let before = last_n(self.before + frame, samples_in(config.padding_ms as int));
                (VadView { before, ..self }, None)
            },
            Some(speech) => if verdict.voiced {
                let samples = speech.samples + self.trailing + frame;
                if samples.len() >= MAX_SPEECH_SAMPLES {
                    (
                        VadView { before: seq![], speech: None, trailing: seq![], ..self },
                        Some(samples),
                    )
                } else {
                    let longer = Speech { samples, silence_ms: 0 };
                    (VadView { speech: Some(longer), trailing: seq![], ..self }, None)
                }
            } else {
                let silence_ms = speech.silence_ms + FRAME_MS;
                let pausing = VadView {
                    speech: Some(Speech { samples: speech.samples, silence_ms }),
                    trailing: self.trailing + frame,
                    ..self
                };
                if silence_ms >= config.end_silence_ms {
                    (pausing.closed(config), pausing.closing_segment(config))
                } else {
                    (pausing, None)
                }
            },
        }
    }

    /// The segmenter after the end of the audio, and the samples of the last
    /// segment.
    pub open spec fn after_end(self, config: SegmentConfig) -> (VadView, Option<Seq<i16>>) {
        let drained = VadView { pending: seq![], ..self };
        match self.speech {
            Some(_) => (drained.closed(config), drained.closing_segment(config)),
            None => (drained, None),
        }
    }
}

/// Whether a segment is the one that the model gives.
pub open spec fn is_segment(r: Option<SpeechSegment>, samples: Option<Seq<i16>>) -> bool {
    match samples {
        Some(s) => r matches Some(segment) && segment.pcm@ == segment_pcm(s),
        None => r is None,
    }
}

// ─── Arithmetic ────────────────────────────────────────────────────────

/// How many samples last `ms` milliseconds.
pub fn ms_to_samples(ms: u32) -> (r: usize)
    requires
        ms * 16000 <= usize::MAX,
    ensures
        r == samples_in(ms as int),
{
    (ms as usize * 16000) / 1000
}

/// How many milliseconds `samples` last, as a 32-bit count.
pub fn samples_to_ms(samples: usize) -> (r: u32)
    requires
        samples * 1000 <= u64::MAX,
    ensures
        r == ms_in(samples as int),
{
    ((samples as u64 * 1000 / 16000) % 0x1_0000_0000) as u32
}

/// Appends a frame to the latest silence and keeps the last `cap` samples.
pub fn extend_ring(ring: &mut Vec<i16>, frame: &[i16], cap: usize)
    requires
        old(ring)@.len() <= cap,
    ensures
        final(ring)@ == last_n(old(ring)@ + frame@, cap as int),
{
    ring.extend_from_slice(frame);
    assert(ring@ =~= old(ring)@ + frame@);
    keep_last(ring, cap);
}

fn keep_last(v: &mut Vec<i16>, n: usize)
    ensures
        final(v)@ == last_n(old(v)@, n as int),
{
    if v.len() > n {
        let cut: usize = v.len() - n;
        let kept = v.split_off(cut);
        assert(kept@ =~= old(v)@.skip(cut as int));
        *v = kept;
    }
}

/// The bytes of a segment.
pub fn segment_bytes(samples: &[i16]) -> (r: Vec<u8>)
    ensures
        r@ == segment_pcm(samples@),
{
    let mut out: Vec<i16> = Vec::new();
    let mut i: usize = 0;
    while i < samples.len()
        invariant
            i <= samples@.len(),
            out@ == samples@.take(i as int).map_values(|s: i16| rescaled(s)),
        decreases samples@.len() - i,
    {
        let s: i16 = samples[i];
        out.push(
            if s > 0 {
                s - 1
            } else if s < 0 {
                s + 1
            } else {
                0
            },
        );
        assert(out@ =~= samples@.take(i + 1).map_values(|s: i16| rescaled(s)));
        i += 1;
    }
    assert(samples@.take(samples@.len() as int) =~= samples@);
    pcm::encode(out.as_slice())
}

// ─── The segmenter ─────────────────────────────────────────────────────

/// Durations that a segmenter can work with: the padding can be counted in
/// samples, and the pause in milliseconds.
pub open spec fn usable(config: SegmentConfig) -> bool {
    &&& config.padding_ms * 16000 <= usize::MAX
    &&& config.end_silence_ms <= u32::MAX - FRAME_MS
}

impl View for SileroEngine {
    type V = VadView;

    closed spec fn view(&self) -> VadView {
        VadView {
            pending: self.pending@,
            before: self.pre_buf@,
            speech: match self.state {
                State::Silence => None,
                State::Speech { samples, silence_ms } => Some(
                    Speech { samples: samples@, silence_ms: silence_ms as int },
                ),
            },
            trailing: self.trailing@,
            context: self.context@,
        }
    }
}

impl SileroEngine {
    pub closed spec fn durations(&self) -> SegmentConfig {
        self.config
    }

    /// What every operation keeps: the padding never grows past its limit, a
    /// pause only stands behind speech, and an open pause is too short to
    /// close the segment.
    pub closed spec fn valid(&self) -> bool {
        let padding = samples_in(self.config.padding_ms as int);
        &&& usable(self.config)
        &&& self.pre_buf@.len() <= padding
        &&& self.context@.len() == CONTEXT_SAMPLES
        &&& match self.state {
            State::Silence => self.trailing@.len() == 0,
            State::Speech { samples, silence_ms } => {
                &&& samples@.len() <= MAX_SPEECH_SAMPLES + padding + FRAME_SAMPLES
                &&& self.trailing@.len() <= 16 * silence_ms
                &&& silence_ms == 0 || silence_ms < self.config.end_silence_ms
            },
        }
    }

    pub fn new(config: SegmentConfig) -> (r: Self)
        requires
            usable(config),
        ensures
            r.valid(),
            r.durations() == config,
            r@ == VadView::initial(),
    {
        let mut context: Vec<i16> = Vec::new();
        let mut i: usize = 0;
        while i < CONTEXT_SAMPLES
            invariant
                i <= CONTEXT_SAMPLES,
                context@.len() == i,
                forall|j: int| 0 <= j < i ==> context@[j] == 0,
            decreases CONTEXT_SAMPLES - i,
        {
            context.push(0);
            i += 1;
        }
        let r = SileroEngine {
            config,
            pending: Vec::new(),
            pre_buf: Vec::new(),
            state: State::Silence,
            trailing: Vec::new(),
            context,
        };
        assert(r@ =~= VadView::initial());
        r
    }

    /// Takes PCM16 little-endian 16 kHz mono bytes.
    pub fn push_pcm(&mut self, pcm_bytes: &[u8])
        requires
            old(self).valid(),
        ensures
            final(self).valid(),
            final(self).durations() == old(self).durations(),
            final(self)@ == (VadView {
                pending: old(self)@.pending + pcm::samples_of(pcm_bytes@),
                ..old(self)@
            }),
    {
        pcm::decode_into(&mut self.pending, pcm_bytes);
    }

    /// Takes the next whole frame off the pending samples.
    pub fn next_frame(&mut self) -> (r: Option<Vec<i16>>)
        requires
            old(self).valid(),
        ensures
            final(self).valid(),
            final(self).durations() == old(self).durations(),
            match r {
                Some(frame) => {
                    &&& old(self)@.pending.len() >= FRAME_SAMPLES
                    &&& frame@ == old(self)@.pending.take(FRAME_SAMPLES as int)
                    &&& final(self)@ == (VadView {
                        pending: old(self)@.pending.skip(FRAME_SAMPLES as int),
                        ..old(self)@
                    })
                },
                None => old(self)@.pending.len() < FRAME_SAMPLES && final(self)@ == old(self)@,
            },
    {
        if self.pending.len() < FRAME_SAMPLES {
            return None;
        }
        let mut rest = self.pending.split_off(FRAME_SAMPLES);
        std::mem::swap(&mut rest, &mut self.pending);
        assert(rest@ =~= old(self)@.pending.take(FRAME_SAMPLES as int));
        assert(self.pending@ =~= old(self)@.pending.skip(FRAME_SAMPLES as int));
        Some(rest)
    }

    /// What the model is shown for a frame: the end of the previous frame, then
    /// the frame.
    pub fn model_input(&self, frame: &[i16]) -> (r: Vec<i16>)
        ensures
            r@ == self@.context + frame@,
    {
        let mut full: Vec<i16> = Vec::new();
        full.extend_from_slice(self.context.as_slice());
        full.extend_from_slice(frame);
        assert(full@ =~= self@.context + frame@);
        full
    }

    /// Remembers the end of a frame that the model has seen.
    pub fn keep_context(&mut self, frame: &[i16])
        requires
            old(self).valid(),
            frame@.len() == FRAME_SAMPLES,
        ensures
            final(self).valid(),
            final(self).durations() == old(self).durations(),
            final(self)@ == (VadView {
                context: last_n(frame@, CONTEXT_SAMPLES as int),
                ..old(self)@
            }),
    {
        let mut context: Vec<i16> = Vec::new();
        context.extend_from_slice(frame);
        assert(context@ =~= frame@);
        keep_last(&mut context, CONTEXT_SAMPLES);
        self.context = context;
    }

    /// Takes a frame with the model's verdict on it. Returns the segment that
    /// it completed, if any.
    pub fn process_frame(&mut self, frame: &[i16], verdict: Verdict) -> (r: Option<SpeechSegment>)
        requires
            old(self).valid(),
            frame@.len() == FRAME_SAMPLES,
        ensures
            final(self).valid(),
            final(self).durations() == old(self).durations(),
            final(self)@ == old(self)@.after_frame(old(self).durations(), frame@, verdict).0,
            is_segment(r, old(self)@.after_frame(old(self).durations(), frame@, verdict).1),
    {
        let ghost before = self@;
        let ghost config = self.config;
        let mut state = State::Silence;
        std::mem::swap(&mut state, &mut self.state);
        match state {
            State::Silence => {
                if verdict.speech {
                    let mut samples: Vec<i16> = Vec::new();
                    samples.append(&mut self.pre_buf);
                    samples.extend_from_slice(frame);
                    assert(samples@ =~= before.before + frame@);
                    self.state = State::Speech { samples, silence_ms: 0 };
                    assert(self@ =~= before.after_frame(config, frame@, verdict).0);
                } else {
                    let cap: usize = ms_to_samples(self.config.padding_ms);
                    extend_ring(&mut self.pre_buf, frame, cap);
                    assert(self@ =~= before.after_frame(config, frame@, verdict).0);
                }
                None
            },
            State::Speech { samples, silence_ms } => {
                let mut samples = samples;
                if verdict.voiced {
                    samples.append(&mut self.trailing);
                    samples.extend_from_slice(frame);
                    assert(samples@ =~= before.speech->0.samples + before.trailing + frame@);
                    if samples.len() >= MAX_SPEECH_SAMPLES {
                        self.pre_buf.clear();
                        assert(self@ =~= before.after_frame(config, frame@, verdict).0);
                        Some(SpeechSegment { pcm: segment_bytes(samples.as_slice()) })
                    } else {
                        self.state = State::Speech { samples, silence_ms: 0 };
                        assert(self@ =~= before.after_frame(config, frame@, verdict).0);
                        None
                    }
                } else {
                    self.trailing.extend_from_slice(frame);
                    assert(self.trailing@ =~= before.trailing + frame@);
                    let silence_ms: u32 = silence_ms + FRAME_MS;
                    if silence_ms >= self.config.end_silence_ms {
                        let ghost pausing = VadView {
                            speech: Some(
                                Speech {
                                    samples: before.speech->0.samples,
                                    silence_ms: silence_ms as int,
                                },
                            ),
                            trailing: self.trailing@,
                            ..before
                        };
                        let r = self.close_segment(samples);
                        assert(self@ =~= pausing.closed(config));
                        r
                    } else {
                        self.state = State::Speech { samples, silence_ms };
                        assert(self@ =~= before.after_frame(config, frame@, verdict).0);
                        None
                    }
                }
            },
        }
    }

    /// Takes the end of the audio. Samples that fill no frame are dropped.
    pub fn finish(&mut self) -> (r: Option<SpeechSegment>)
        requires
            old(self).valid(),
        ensures
            final(self).valid(),
            final(self).durations() == old(self).durations(),
            final(self)@ == old(self)@.after_end(old(self).durations()).0,
            is_segment(r, old(self)@.after_end(old(self).durations()).1),
    {
        let ghost config = self.config;
        self.pending.clear();
        let ghost drained = VadView { pending: seq![], ..old(self)@ };
        let mut state = State::Silence;
        std::mem::swap(&mut state, &mut self.state);
        match state {
            State::Speech { samples, .. } => {
                let r = self.close_segment(samples);
                assert(self@ =~= drained.closed(config));
                r
            },
            State::Silence => {
                assert(self@ =~= drained);
                None
            },
        }
    }

    /// Closes the segment with the given samples. The start of the pause is
    /// its padding; the end of what is left is padding for the next one.
    fn close_segment(&mut self, samples: Vec<i16>) -> (r: Option<SpeechSegment>)
        requires
            usable(old(self).config),
            old(self).context@.len() == CONTEXT_SAMPLES,
            old(self).state is Silence,
            old(self).trailing@.len() <= 16 * u32::MAX,
            samples@.len() <= MAX_SPEECH_SAMPLES + samples_in(old(self).config.padding_ms as int)
                + FRAME_SAMPLES,
        ensures
            final(self).valid(),
            final(self).config == old(self).config,
            final(self)@ == (VadView {
                speech: Some(Speech { samples: samples@, silence_ms: 0 }),
                ..old(self)@
            }).closed(old(self).config),
            is_segment(
                r,
                (VadView {
                    speech: Some(Speech { samples: samples@, silence_ms: 0 }),
                    ..old(self)@
                }).closing_segment(old(self).config),
            ),
    {
        let ghost open = VadView {
            speech: Some(Speech { samples: samples@, silence_ms: 0 }),
            ..self@
        };
        let mut samples = samples;
        let cap: usize = ms_to_samples(self.config.padding_ms);
        let post_pad: usize = if cap < self.trailing.len() {
            cap
        } else {
            self.trailing.len()
        };
        let mut rest = self.trailing.split_off(post_pad);
        samples.append(&mut self.trailing);
        assert(samples@ =~= open.closed_samples(self.config));
        keep_last(&mut rest, cap);
        self.pre_buf = rest;
        assert(self@ =~= open.closed(self.config));
        if samples_to_ms(samples.len()) >= self.config.min_segment_ms {
            Some(SpeechSegment { pcm: segment_bytes(samples.as_slice()) })
        } else {
            None
        }
    }
}

/// A detector that hears no speech. It stands in when the model cannot be
/// loaded.
#[derive(Debug, Clone, Copy)]
pub struct DisabledVadEngine;

impl VadEngine for DisabledVadEngine {
    fn push_pcm(&mut self, pcm: &[u8]) -> (r: Vec<SpeechSegment>)
        ensures
            r@.len() == 0,
    {
        Vec::new()
    }

    fn finish(&mut self) -> (r: Option<SpeechSegment>)
        ensures
            r is None,
    {
        None
    }
}

// ─── Laws ──────────────────────────────────────────────────────────────

/// Whether `part` ends where `heard` ends and starts no earlier than `done`.
pub open spec fn ends_after(part: Seq<i16>, heard: Seq<i16>, done: int) -> bool {
    &&& 0 <= done <= heard.len()
    &&& part.len() <= heard.len() - done
    &&& part == heard.skip(heard.len() - part.len())
}

/// Whether what the segmenter keeps is the latest audio of `heard`, from after
/// the first `done` samples.
pub open spec fn follows(v: VadView, heard: Seq<i16>, done: int) -> bool {
    match v.speech {
        None => v.trailing.len() == 0 && ends_after(v.before, heard, done),
        Some(speech) => ends_after(speech.samples + v.trailing, heard, done),
    }
}

/// Segments are contiguous stretches of the audio, in order and without
/// overlap: if the segmenter has kept to the first `done` samples, then the
/// segment that a frame completes starts after them, and the segmenter goes on
/// after the segment. Returns where the segment starts and where it ends.
pub proof fn law_segments_are_stretches_of_audio(
    v: VadView,
    config: SegmentConfig,
    heard: Seq<i16>,
    done: int,
    frame: Seq<i16>,
    verdict: Verdict,
) -> (r: (int, int))
    requires
        follows(v, heard, done),
    ensures
        done <= r.0 <= r.1 <= heard.len() + frame.len(),
        follows(v.after_frame(config, frame, verdict).0, heard + frame, r.1),
        v.after_frame(config, frame, verdict).1 matches Some(samples) ==> samples == (heard
            + frame).subrange(r.0, r.1),
{
    let all = heard + frame;
    let next = v.after_frame(config, frame, verdict).0;
    let padding = samples_in(config.padding_ms as int);
    match v.speech {
        None => {
            let whole = v.before + frame;
            assert(whole =~= all.skip(all.len() - whole.len()));
            if verdict.speech {
                assert(whole + v.trailing =~= whole);
            } else {
                assert(last_n(whole, padding) =~= all.skip(
                    all.len() - last_n(whole, padding).len(),
                ));
            }
            (done, done)
        },
        Some(speech) => {
            let whole = speech.samples + v.trailing + frame;
            let start = all.len() - whole.len();
            assert(whole =~= all.skip(start));
            if verdict.voiced {
                if whole.len() >= MAX_SPEECH_SAMPLES {
                    assert(whole =~= all.subrange(start, all.len() as int));
                    assert(next.before =~= all.skip(all.len() as int));
                    (start, all.len() as int)
                } else {
                    assert(whole + Seq::<i16>::empty() =~= whole);
                    (done, done)
                }
            } else {
                let trailing = v.trailing + frame;
                assert(speech.samples + trailing =~= whole);
                let silence_ms = speech.silence_ms + FRAME_MS;
                if silence_ms >= config.end_silence_ms {
                    let kept = speech.samples + first_n(trailing, padding);
                    let end = start + kept.len();
                    assert(kept =~= all.subrange(start, end));
                    let rest = if trailing.len() <= padding {
                        Seq::<i16>::empty()
                    } else {
                        trailing.skip(padding)
                    };
                    assert(rest =~= whole.skip(kept.len() as int));
                    assert(whole.skip(kept.len() as int) =~= all.skip(end));
                    assert(last_n(rest, padding) =~= all.skip(
                        all.len() - last_n(rest, padding).len(),
                    ));
                    (start, end)
                } else {
                    (done, done)
                }
            }
        },
    }
}

/// A segment lasts at least the minimum, or was cut at the maximum.
pub proof fn law_segments_are_long_enough(
    v: VadView,
    config: SegmentConfig,
    frame: Seq<i16>,
    verdict: Verdict,
)
    ensures
        v.after_frame(config, frame, verdict).1 matches Some(samples) ==> ms_in(
            samples.len() as int,
        ) >= config.min_segment_ms || samples.len() >= MAX_SPEECH_SAMPLES,
        v.after_end(config).1 matches Some(samples) ==> ms_in(samples.len() as int)
            >= config.min_segment_ms,
{
}

/// A segmenter at work: its state, the frames that the model has seen so far,
/// and the samples of the segments that have come out.
#[verifier::ext_equal]
pub struct Work {
    pub vad: VadView,
    pub heard: Seq<i16>,
    pub segments: Seq<Seq<i16>>,
}

impl Work {
    /// The work after the next whole frame. The model's verdict on a frame may
    /// depend on everything that it has heard up to the end of the frame.
    pub open spec fn after_frame(
        self,
        config: SegmentConfig,
        model: spec_fn(Seq<i16>) -> Verdict,
    ) -> Work {
        let frame = self.vad.pending.take(FRAME_SAMPLES as int);
        let heard = self.heard + frame;
        let vad = VadView {
            pending: self.vad.pending.skip(FRAME_SAMPLES as int),
            context: last_n(frame, CONTEXT_SAMPLES as int),
            ..self.vad
        };
        let (next, segment) = vad.after_frame(config, frame, model(heard));
        Work {
            vad: next,
            heard,
            segments: match segment {
                Some(samples) => self.segments.push(samples),
                None => self.segments,
            },
        }
    }

    /// The work after all whole frames.
    pub open spec fn drained(
        self,
        config: SegmentConfig,
        model: spec_fn(Seq<i16>) -> Verdict,
    ) -> Work
        decreases self.vad.pending.len(),
    {
        if self.vad.pending.len() < FRAME_SAMPLES {
            self
        } else {
            self.after_frame(config, model).drained(config, model)
        }
    }

    /// The work with more samples waiting.
    pub open spec fn with(self, samples: Seq<i16>) -> Work {
        Work { vad: VadView { pending: self.vad.pending + samples, ..self.vad }, ..self }
    }

    /// The work after a push of PCM bytes, with all whole frames taken.
    pub open spec fn pushed(
        self,
        config: SegmentConfig,
        model: spec_fn(Seq<i16>) -> Verdict,
        bytes: Seq<u8>,
    ) -> Work {
        self.with(pcm::samples_of(bytes)).drained(config, model)
    }

    /// The work after several pushes.
    pub open spec fn pushed_all(
        self,
        config: SegmentConfig,
        model: spec_fn(Seq<i16>) -> Verdict,
        pieces: Seq<Seq<u8>>,
    ) -> Work
        decreases pieces.len(),
    {
        if pieces.len() == 0 {
            self
        } else {
            self.pushed_all(config, model, pieces.drop_last()).pushed(config, model, pieces.last())
        }
    }
}

/// The pieces one after the other.
pub open spec fn put_together(pieces: Seq<Seq<u8>>) -> Seq<u8>
    decreases pieces.len(),
{
    if pieces.len() == 0 {
        seq![]
    } else {
        put_together(pieces.drop_last()) + pieces.last()
    }
}

/// How audio is cut into pushes makes no difference, as long as no sample is cut
/// in two: pushing the pieces gives the same segments as pushing everything at
/// once, and leaves the segmenter in the same state, so that the end of the
/// audio gives the same segment too.
pub proof fn law_cuts_between_pushes_do_not_matter(
    work: Work,
    config: SegmentConfig,
    model: spec_fn(Seq<i16>) -> Verdict,
    pieces: Seq<Seq<u8>>,
)
    requires
        work.vad.pending.len() < FRAME_SAMPLES,
        forall|i: int| 0 <= i < pieces.len() ==> (#[trigger] pieces[i]).len() % 2 == 0,
    ensures
        work.pushed_all(config, model, pieces) == work.pushed(config, model, put_together(pieces)),
    decreases pieces.len(),
{
    if pieces.len() == 0 {
        assert(pcm::samples_of(put_together(pieces)) =~= Seq::<i16>::empty());
        assert(work.with(Seq::<i16>::empty()) =~= work);
    } else {
        let earlier = pieces.drop_last();
        let last = pieces.last();
        assert forall|i: int| 0 <= i < earlier.len() implies (#[trigger] earlier[i]).len() % 2
            == 0 by {
            assert(earlier[i] == pieces[i]);
        }
        law_cuts_between_pushes_do_not_matter(work, config, model, earlier);
        lemma_even(earlier);
        let whole = put_together(earlier);
        assert(pcm::samples_of(whole + last) =~= pcm::samples_of(whole) + pcm::samples_of(last));
        let start = work.with(pcm::samples_of(whole));
        lemma_drained_in_steps(start, config, model, pcm::samples_of(last));
        assert(start.with(pcm::samples_of(last)) =~= work.with(pcm::samples_of(whole + last)));
    }
}

proof fn lemma_even(pieces: Seq<Seq<u8>>)
    requires
        forall|i: int| 0 <= i < pieces.len() ==> (#[trigger] pieces[i]).len() % 2 == 0,
    ensures
        put_together(pieces).len() % 2 == 0,
    decreases pieces.len(),
{
    if pieces.len() > 0 {
        let earlier = pieces.drop_last();
        assert forall|i: int| 0 <= i < earlier.len() implies (#[trigger] earlier[i]).len() % 2
            == 0 by {
            assert(earlier[i] == pieces[i]);
        }
        lemma_even(earlier);
        assert(pieces[pieces.len() - 1].len() % 2 == 0);
    }
}

/// Frames can be taken before more samples come, or after.
proof fn lemma_drained_in_steps(
    work: Work,
    config: SegmentConfig,
    model: spec_fn(Seq<i16>) -> Verdict,
    more: Seq<i16>,
)
    ensures
        work.drained(config, model).with(more).drained(config, model) == work.with(more).drained(
            config,
            model,
        ),
    decreases work.vad.pending.len(),
{
    if work.vad.pending.len() >= FRAME_SAMPLES {
        let next = work.after_frame(config, model);
        lemma_drained_in_steps(next, config, model, more);
        let pending = work.vad.pending;
        let n = FRAME_SAMPLES as int;
        assert((pending + more).take(n) =~= pending.take(n));
        assert((pending + more).skip(n) =~= pending.skip(n) + more);
        assert(work.with(more).after_frame(config, model) =~= next.with(more));
    }
}

/// The audio of several frames.
pub open spec fn audio_of(frames: Seq<Seq<i16>>) -> Seq<i16>
    decreases frames.len(),
{
    if frames.len() == 0 {
        seq![]
    } else {
        audio_of(frames.drop_last()) + frames.last()
    }
}

/// The segmenter after the first `n` frames, and the samples of the segments
/// that have come out.
pub open spec fn cut(
    config: SegmentConfig,
    frames: Seq<Seq<i16>>,
    verdicts: Seq<Verdict>,
    n: nat,
) -> (VadView, Seq<Seq<i16>>)
    decreases n,
{
    if n == 0 {
        (VadView::initial(), seq![])
    } else {
        let (vad, segments) = cut(config, frames, verdicts, (n - 1) as nat);
        let (next, segment) = vad.after_frame(config, frames[n - 1], verdicts[n - 1]);
        match segment {
            Some(samples) => (next, segments.push(samples)),
            None => (next, segments),
        }
    }
}

/// The samples of all segments of a recording, the one that its end closes among
/// them.
pub open spec fn segments_of(
    config: SegmentConfig,
    frames: Seq<Seq<i16>>,
    verdicts: Seq<Verdict>,
) -> Seq<Seq<i16>> {
    let (vad, segments) = cut(config, frames, verdicts, frames.len());
    match vad.after_end(config).1 {
        Some(samples) => segments.push(samples),
        None => segments,
    }
}

/// A stretch of a recording around speech. Frames are counted from the start of
/// the recording, and so are samples.
pub struct Stretch {
    /// The frame that began it.
    pub onset: int,
    /// Its last voiced frame.
    pub last: int,
    /// Its samples, from the first one up to behind the last one.
    pub start: int,
    pub end: int,
    /// How many frames had been heard when it closed.
    pub closed: int,
    /// Whether it closed because it had become too long.
    pub full: bool,
}

/// Whether none of the frames from `from` up to `to` counts as speech.
#[verifier::opaque]
pub open spec fn no_speech(verdicts: Seq<Verdict>, from: int, to: int) -> bool {
    forall|k: int| from <= k < to ==> !(#[trigger] verdicts[k]).speech
}

/// Whether no pause between the frames `onset` and `last` is as long as the
/// closing silence.
#[verifier::opaque]
pub open spec fn no_long_pause(
    config: SegmentConfig,
    verdicts: Seq<Verdict>,
    onset: int,
    last: int,
) -> bool {
    forall|from: int, to: int|
        onset <= from < to <= last && #[trigger] silent(verdicts, from, to) ==> 32 * (to - from)
            < config.end_silence_ms
}

/// Whether a stretch of audio from sample `start` on is shorter than five
/// minutes at every voiced frame behind `onset` and before `to`.
#[verifier::opaque]
pub open spec fn not_full(verdicts: Seq<Verdict>, onset: int, to: int, start: int) -> bool {
    forall|k: int|
        onset < k < to && (#[trigger] verdicts[k]).voiced ==> 512 * (k + 1) - start < 4800000
}

/// Whether the frames from `from` up to `to` are all without voice.
#[verifier::opaque]
pub open spec fn silent(verdicts: Seq<Verdict>, from: int, to: int) -> bool {
    forall|k: int| from <= k < to ==> !(#[trigger] verdicts[k]).voiced
}

/// Whether a stretch is one that began as it should, behind a stretch that ended
/// at sample `prev_end` and closed after `prev_closed` frames: at the first frame
/// of speech since then, with as much of the audio before it as the padding
/// allows, without a pause in it that is as long as the closing silence, and
/// without a frame in it at which it was full already.
pub open spec fn began_well(
    config: SegmentConfig,
    verdicts: Seq<Verdict>,
    prev_end: int,
    prev_closed: int,
    s: Stretch,
) -> bool {
    let padding = 16 * config.padding_ms;
    &&& 0 <= prev_closed <= s.onset <= s.last < s.closed <= verdicts.len()
    &&& verdicts[s.onset].speech && verdicts[s.last].voiced
    &&& no_speech(verdicts, prev_closed, s.onset)
    &&& s.start == (if 512 * s.onset - padding > prev_end {
        512 * s.onset - padding
    } else {
        prev_end
    })
    &&& no_long_pause(config, verdicts, s.onset, s.last)
    &&& not_full(verdicts, s.onset, s.last, s.start)
}

/// Whether a stretch closed as it should: behind the pause that had just become
/// as long as the closing silence, or when it had become five minutes long, or at
/// the end of the recording of `n` frames. It holds as much of the pause as the padding
/// allows.
pub open spec fn closed_well(
    config: SegmentConfig,
    verdicts: Seq<Verdict>,
    n: int,
    s: Stretch,
) -> bool {
    let padding = 16 * config.padding_ms;
    let pause = s.closed - 1 - s.last;
    &&& silent(verdicts, s.last + 1, s.closed)
    &&& s.end == (if 512 * (s.last + 1) + padding < 512 * s.closed {
        512 * (s.last + 1) + padding
    } else {
        512 * s.closed
    })
    &&& if s.full {
        pause == 0 && s.onset < s.last && s.end - s.start >= 4800000
    } else {
        &&& not_full(verdicts, s.onset, s.last + 1, s.start)
        &&& {
            ||| pause > 0 && 32 * pause >= config.end_silence_ms && (pause == 1 || 32 * (pause - 1)
                < config.end_silence_ms)
            ||| s.closed == n && (pause == 0 || 32 * pause < config.end_silence_ms)
        }
    }
}

pub open spec fn end_before(stretches: Seq<Stretch>, j: int) -> int {
    if j <= 0 {
        0
    } else {
        stretches[j - 1].end
    }
}

pub open spec fn closed_before(stretches: Seq<Stretch>, j: int) -> int {
    if j <= 0 {
        0
    } else {
        stretches[j - 1].closed
    }
}

/// Whether the stretches are those that a recording of `n` frames has, as far as
/// the verdicts go.
pub open spec fn well_stretched(
    config: SegmentConfig,
    verdicts: Seq<Verdict>,
    n: int,
    stretches: Seq<Stretch>,
) -> bool {
    forall|j: int|
        0 <= j < stretches.len() ==> {
            let s = #[trigger] stretches[j];
            began_well(config, verdicts, end_before(stretches, j), closed_before(stretches, j), s)
                && closed_well(config, verdicts, n, s)
        }
}

/// Whether a stretch lasts long enough to be kept. A full one always does.
pub open spec fn worth_keeping(config: SegmentConfig, s: Stretch) -> bool {
    s.full || (s.end - s.start) / 16 % 0x1_0000_0000 >= config.min_segment_ms
}

/// The audio of the stretches that are kept, in order.
pub open spec fn kept(config: SegmentConfig, audio: Seq<i16>, stretches: Seq<Stretch>) -> Seq<
    Seq<i16>,
>
    decreases stretches.len(),
{
    if stretches.len() == 0 {
        seq![]
    } else {
        let earlier = kept(config, audio, stretches.drop_last());
        let s = stretches.last();
        if worth_keeping(config, s) {
            earlier.push(audio.subrange(s.start, s.end))
        } else {
            earlier
        }
    }
}

/// Whether frame `k` lies in one of the stretches.
pub open spec fn in_stretch(stretches: Seq<Stretch>, k: int) -> bool {
    exists|j: int| 0 <= j < stretches.len() && (#[trigger] stretches[j]).onset <= k <= stretches[j].last
}

/// No speech is lost, and nothing but speech is kept. The segments of a
/// recording are stretches of its audio, in order and without overlap. Every
/// frame that counts as speech lies in one of the stretches, from the frame's
/// first sample to its last. A stretch that the end of the recording closes is
/// kept like any other, however long the pause at its end. Only stretches that
/// are too short are dropped. Returns the stretches.
#[verifier::rlimit(40)]
pub proof fn law_no_speech_is_lost(
    config: SegmentConfig,
    frames: Seq<Seq<i16>>,
    verdicts: Seq<Verdict>,
) -> (stretches: Seq<Stretch>)
    requires
        frames.len() == verdicts.len(),
        forall|k: int| 0 <= k < frames.len() ==> (#[trigger] frames[k]).len() == 512,
        forall|k: int|
            0 <= k < verdicts.len() && (#[trigger] verdicts[k]).speech ==> verdicts[k].voiced,
    ensures
        segments_of(config, frames, verdicts) == kept(config, audio_of(frames), stretches),
        well_stretched(config, verdicts, frames.len() as int, stretches),
        forall|k: int|
            0 <= k < verdicts.len() && (#[trigger] verdicts[k]).speech ==> in_stretch(stretches, k),
        forall|j: int|
            0 <= j < stretches.len() ==> end_before(stretches, j) <= (#[trigger] stretches[j]).start
                <= 512 * stretches[j].onset && 512 * (stretches[j].last + 1) <= stretches[j].end
                <= 512 * frames.len(),
{
    let n = frames.len();
    let (done, open) = lemma_followed(config, frames, verdicts, n);
    let audio = audio_of(frames);
    let (vad, segments) = cut(config, frames, verdicts, n);
    lemma_audio(frames);
    match open {
        None => {
            reveal(covered);
            reveal(all_closed);
            lemma_bounds(config, verdicts, n as int, done);
            done
        },
        Some(s) => {
            let tail = 512 * (s.last + 1);
            let padding = 16 * config.padding_ms;
            let end = if tail + padding < 512 * n {
                tail + padding
            } else {
                512 * n as int
            };
            let closing = Stretch { end, closed: n as int, full: false, ..s };
            let all = done.push(closing);
            law_the_end_gives_the_open_segment(vad, config);
            let more = if vad.trailing.len() < padding {
                vad.trailing.len() as int
            } else {
                padding as int
            };
            assert(vad.speech->0.samples + vad.trailing.take(more) =~= audio.subrange(s.start, end));
            assert(all.drop_last() =~= done);
            lemma_pushed(config, verdicts, n as int, done, closing);
            lemma_covered_closing(verdicts, n as int, done, s, closing);
            reveal(covered);
            lemma_bounds(config, verdicts, n as int, all);
            all
        },
    }
}

/// Whether the stretches have closed by the time that `n` frames were heard, and
/// not because the recording ended.
#[verifier::opaque]
spec fn all_closed(
    config: SegmentConfig,
    verdicts: Seq<Verdict>,
    n: int,
    done: Seq<Stretch>,
) -> bool {
    forall|j: int|
        0 <= j < done.len() ==> {
            let s = #[trigger] done[j];
            &&& began_well(config, verdicts, end_before(done, j), closed_before(done, j), s)
            &&& closed_well(config, verdicts, -1, s)
            &&& s.closed <= n
        }
}

/// Whether the speech among the first `n` frames lies in the stretches.
#[verifier::opaque]
spec fn covered(verdicts: Seq<Verdict>, n: int, done: Seq<Stretch>, open: Option<Stretch>) -> bool {
    forall|k: int|
        0 <= k < n && (#[trigger] verdicts[k]).speech ==> in_stretch(done, k) || (open matches Some(
            s,
        ) && s.onset <= k <= s.last)
}

/// How the segmenter stands after `n` frames: the stretches that have closed,
/// and the one that is open, whose end is not known yet.
spec fn followed(
    config: SegmentConfig,
    audio: Seq<i16>,
    verdicts: Seq<Verdict>,
    n: int,
    vad: VadView,
    segments: Seq<Seq<i16>>,
    done: Seq<Stretch>,
    open: Option<Stretch>,
) -> bool {
    let prev_end = end_before(done, done.len() as int);
    let prev_closed = closed_before(done, done.len() as int);
    let padding = 16 * config.padding_ms;
    &&& segments == kept(config, audio, done)
    &&& all_closed(config, verdicts, n, done)
    &&& covered(verdicts, n, done, open)
    &&& 0 <= prev_end <= 512 * prev_closed
    &&& prev_closed <= n
    &&& match open {
        None => {
            &&& vad.speech is None
            &&& vad.trailing.len() == 0
            &&& vad.before == last_n(audio.subrange(prev_end, 512 * n), padding)
            &&& no_speech(verdicts, prev_closed, n)
        },
        Some(s) => {
            let tail = 512 * (s.last + 1);
            let pause = n - 1 - s.last;
            &&& s.closed == n
            &&& began_well(config, verdicts, prev_end, prev_closed, s)
            &&& silent(verdicts, s.last + 1, n)
            &&& not_full(verdicts, s.onset, s.last + 1, s.start)
            &&& pause == 0 || 32 * pause < config.end_silence_ms
            &&& vad.speech matches Some(speech) && speech.samples == audio.subrange(s.start, tail)
                && speech.silence_ms == 32 * pause
            &&& vad.trailing == audio.subrange(tail, 512 * n)
        },
    }
}

proof fn lemma_audio(frames: Seq<Seq<i16>>)
    requires
        forall|k: int| 0 <= k < frames.len() ==> (#[trigger] frames[k]).len() == 512,
    ensures
        audio_of(frames).len() == 512 * frames.len(),
        forall|k: int|
            0 <= k < frames.len() ==> audio_of(frames).subrange(512 * k, 512 * k + 512)
                == #[trigger] frames[k],
    decreases frames.len(),
{
    if frames.len() > 0 {
        let earlier = frames.drop_last();
        assert forall|k: int| 0 <= k < earlier.len() implies (#[trigger] earlier[k]).len()
            == 512 by {
            assert(earlier[k] == frames[k]);
        }
        lemma_audio(earlier);
        assert(frames[frames.len() - 1].len() == 512);
        assert forall|k: int| 0 <= k < frames.len() implies audio_of(frames).subrange(
            512 * k,
            512 * k + 512,
        ) == #[trigger] frames[k] by {
            if k < earlier.len() {
                assert(earlier[k] == frames[k]);
                assert(audio_of(frames).subrange(512 * k, 512 * k + 512) =~= audio_of(
                    earlier,
                ).subrange(512 * k, 512 * k + 512));
            } else {
                assert(audio_of(frames).subrange(512 * k, 512 * k + 512) =~= frames[k]);
            }
        }
    }
}

/// Where the stretches lie.
proof fn lemma_bounds(
    config: SegmentConfig,
    verdicts: Seq<Verdict>,
    n: int,
    stretches: Seq<Stretch>,
)
    requires
        n == verdicts.len(),
        well_stretched(config, verdicts, n, stretches),
    ensures
        forall|j: int|
            0 <= j < stretches.len() ==> end_before(stretches, j) <= (#[trigger] stretches[j]).start
                <= 512 * stretches[j].onset && 512 * (stretches[j].last + 1) <= stretches[j].end
                <= 512 * n,
{
    assert forall|j: int| 0 <= j < stretches.len() implies end_before(stretches, j)
        <= (#[trigger] stretches[j]).start <= 512 * stretches[j].onset && 512 * (stretches[j].last
        + 1) <= stretches[j].end <= 512 * n by {
        let s = stretches[j];
        if j > 0 {
            let p = stretches[j - 1];
            assert(closed_well(config, verdicts, n, p));
            assert(p.end <= 512 * p.closed);
        }
        assert(began_well(
            config,
            verdicts,
            end_before(stretches, j),
            closed_before(stretches, j),
            s,
        ));
    }
}

/// One more stretch behind those that have closed.
proof fn lemma_pushed(
    config: SegmentConfig,
    verdicts: Seq<Verdict>,
    n: int,
    done: Seq<Stretch>,
    s: Stretch,
)
    requires
        all_closed(config, verdicts, s.closed, done),
        began_well(
            config,
            verdicts,
            end_before(done, done.len() as int),
            closed_before(done, done.len() as int),
            s,
        ),
        closed_well(config, verdicts, n, s),
    ensures
        well_stretched(config, verdicts, n, done.push(s)),
        n == -1 ==> all_closed(config, verdicts, s.closed, done.push(s)),
{
    reveal(all_closed);
    let all = done.push(s);
    assert forall|j: int| 0 <= j < all.len() implies {
        let d = #[trigger] all[j];
        began_well(config, verdicts, end_before(all, j), closed_before(all, j), d) && closed_well(
            config,
            verdicts,
            n,
            d,
        ) && d.closed <= s.closed
    } by {
        assert(end_before(all, j) == end_before(done, j));
        assert(closed_before(all, j) == closed_before(done, j));
        if j < done.len() {
            assert(all[j] == done[j]);
        }
    }
}

proof fn lemma_covered_closing(
    verdicts: Seq<Verdict>,
    n: int,
    done: Seq<Stretch>,
    open: Stretch,
    closing: Stretch,
)
    requires
        covered(verdicts, n, done, Some(open)),
        open.onset == closing.onset,
        open.last == closing.last,
    ensures
        covered(verdicts, n, done.push(closing), None),
{
    reveal(covered);
    let all = done.push(closing);
    assert forall|k: int| 0 <= k < n && (#[trigger] verdicts[k]).speech implies in_stretch(
        all,
        k,
    ) by {
        if in_stretch(done, k) {
            let j = choose|j: int|
                0 <= j < done.len() && (#[trigger] done[j]).onset <= k <= done[j].last;
            assert(all[j] == done[j]);
        } else {
            assert(all[done.len() as int] == closing);
        }
    }
}

/// What the verdict on frame `n` adds to what is known of the frames before.
proof fn lemma_verdict(config: SegmentConfig, verdicts: Seq<Verdict>, n: int, from: int)
    requires
        0 <= n < verdicts.len(),
        verdicts[n].speech ==> verdicts[n].voiced,
    ensures
        no_speech(verdicts, from, n) && !verdicts[n].speech ==> no_speech(verdicts, from, n + 1),
        silent(verdicts, from, n) && !verdicts[n].voiced ==> silent(verdicts, from, n + 1),
        silent(verdicts, n + 1, n + 1),
        no_speech(verdicts, n + 1, n + 1),
        no_long_pause(config, verdicts, n, n),
        forall|start: int| #[trigger] not_full(verdicts, n, n, start),
        forall|start: int| #[trigger] not_full(verdicts, n, n + 1, start),
{
    reveal(not_full);
    reveal(no_speech);
    reveal(silent);
    reveal(no_long_pause);
}

proof fn lemma_no_long_pause(
    config: SegmentConfig,
    verdicts: Seq<Verdict>,
    onset: int,
    last: int,
    n: int,
)
    requires
        0 <= onset <= last < n < verdicts.len(),
        no_long_pause(config, verdicts, onset, last),
        verdicts[last].voiced,
        n - 1 - last == 0 || 32 * (n - 1 - last) < config.end_silence_ms,
    ensures
        no_long_pause(config, verdicts, onset, n),
{
    reveal(no_long_pause);
    assert forall|from: int, to: int|
        onset <= from < to <= n && #[trigger] silent(verdicts, from, to) implies 32 * (to - from)
        < config.end_silence_ms by {
        if to > last && from <= last {
            reveal(silent);
            assert(!verdicts[last].voiced);
        }
    }
}

/// What a voiced frame `n` leaves of being short enough.
proof fn lemma_not_full(verdicts: Seq<Verdict>, onset: int, last: int, n: int, start: int)
    requires
        0 <= onset <= last < n < verdicts.len(),
        not_full(verdicts, onset, last + 1, start),
        silent(verdicts, last + 1, n),
    ensures
        not_full(verdicts, onset, n, start),
        512 * (n + 1) - start < 4800000 ==> not_full(verdicts, onset, n + 1, start),
{
    reveal(not_full);
    reveal(silent);
}

proof fn lemma_covered_more(
    verdicts: Seq<Verdict>,
    n: int,
    done: Seq<Stretch>,
    open: Option<Stretch>,
    next: Option<Stretch>,
)
    requires
        0 <= n < verdicts.len(),
        covered(verdicts, n, done, open),
        open matches Some(s) ==> (next matches Some(t) && s.onset == t.onset && s.last <= t.last),
        verdicts[n].speech ==> (next matches Some(t) && t.onset <= n <= t.last),
    ensures
        covered(verdicts, n + 1, done, next),
{
    reveal(covered);
}

proof fn lemma_all_closed_more(
    config: SegmentConfig,
    verdicts: Seq<Verdict>,
    n: int,
    done: Seq<Stretch>,
)
    requires
        all_closed(config, verdicts, n, done),
    ensures
        all_closed(config, verdicts, n + 1, done),
{
    reveal(all_closed);
}

/// A frame while no stretch is open.
#[verifier::rlimit(40)]
proof fn lemma_quiet_step(
    config: SegmentConfig,
    audio: Seq<i16>,
    verdicts: Seq<Verdict>,
    n: int,
    vad: VadView,
    segments: Seq<Seq<i16>>,
    done: Seq<Stretch>,
    frame: Seq<i16>,
) -> (open: Option<Stretch>)
    requires
        0 <= n < verdicts.len(),
        audio.len() >= 512 * n + 512,
        frame == audio.subrange(512 * n, 512 * n + 512),
        verdicts[n].speech ==> verdicts[n].voiced,
        followed(config, audio, verdicts, n, vad, segments, done, None),
    ensures
        vad.after_frame(config, frame, verdicts[n]).1 is None,
        followed(
            config,
            audio,
            verdicts,
            n + 1,
            vad.after_frame(config, frame, verdicts[n]).0,
            segments,
            done,
            open,
        ),
{
    let padding = 16 * config.padding_ms;
    assert(samples_in(config.padding_ms as int) == padding);
    let prev_end = end_before(done, done.len() as int);
    let prev_closed = closed_before(done, done.len() as int);
    let recent = audio.subrange(prev_end, 512 * n);
    let now = 512 * (n + 1);
    assert(recent + frame =~= audio.subrange(prev_end, now));
    lemma_verdict(config, verdicts, n, prev_closed);
    lemma_all_closed_more(config, verdicts, n, done);
    if verdicts[n].speech {
        let start = if 512 * n - padding > prev_end {
            512 * n - padding
        } else {
            prev_end
        };
        let s = Stretch { onset: n, last: n, start, end: 0, closed: n + 1, full: false };
        assert(vad.before + frame =~= audio.subrange(start, now));
        assert(vad.trailing =~= audio.subrange(now, now));
        lemma_covered_more(verdicts, n, done, None, Some(s));
        Some(s)
    } else {
        assert(last_n(vad.before + frame, padding) =~= last_n(recent + frame, padding));
        lemma_covered_more(verdicts, n, done, None, None);
        None
    }
}

/// A voiced frame in an open stretch.
#[verifier::rlimit(40)]
proof fn lemma_voiced_step(
    config: SegmentConfig,
    audio: Seq<i16>,
    verdicts: Seq<Verdict>,
    n: int,
    vad: VadView,
    segments: Seq<Seq<i16>>,
    done: Seq<Stretch>,
    s: Stretch,
    frame: Seq<i16>,
) -> (r: (Seq<Stretch>, Option<Stretch>))
    requires
        0 <= n < verdicts.len(),
        audio.len() >= 512 * n + 512,
        frame == audio.subrange(512 * n, 512 * n + 512),
        verdicts[n].voiced,
        followed(config, audio, verdicts, n, vad, segments, done, Some(s)),
    ensures
        ({
            let (next, segment) = vad.after_frame(config, frame, verdicts[n]);
            let out = match segment {
                Some(samples) => segments.push(samples),
                None => segments,
            };
            followed(config, audio, verdicts, n + 1, next, out, r.0, r.1)
        }),
{
    let padding = 16 * config.padding_ms;
    let now = 512 * (n + 1);
    let samples = vad.speech->0.samples + vad.trailing + frame;
    assert(samples =~= audio.subrange(s.start, now));
    let longer = Stretch { last: n, closed: n + 1, ..s };
    lemma_verdict(config, verdicts, n, 0);
    lemma_no_long_pause(config, verdicts, s.onset, s.last, n);
    lemma_not_full(verdicts, s.onset, s.last, n, s.start);
    lemma_covered_more(verdicts, n, done, Some(s), Some(longer));
    lemma_all_closed_more(config, verdicts, n, done);
    assert(audio.subrange(now, now) =~= Seq::<i16>::empty());
    if samples.len() >= MAX_SPEECH_SAMPLES {
        let closing = Stretch { end: now, full: true, ..longer };
        lemma_kept_more(config, audio, done, closing);
        lemma_pushed(config, verdicts, -1, done, closing);
        lemma_covered_closing(verdicts, n + 1, done, longer, closing);
        (done.push(closing), None)
    } else {
        (done, Some(longer))
    }
}

/// How a pause is split at the padding: the one part goes with the audio before
/// it, the other part is left.
proof fn lemma_split(audio: Seq<i16>, start: int, tail: int, now: int, padding: int)
    requires
        0 <= start <= tail <= now <= audio.len(),
        0 <= padding,
    ensures
        ({
            let pause = audio.subrange(tail, now);
            let end = if tail + padding < now {
                tail + padding
            } else {
                now
            };
            &&& audio.subrange(start, tail) + first_n(pause, padding) == audio.subrange(start, end)
            &&& (if pause.len() <= padding {
                Seq::<i16>::empty()
            } else {
                pause.skip(padding)
            }) == audio.subrange(end, now)
        }),
{
}

/// What one more stretch adds to what is kept.
proof fn lemma_kept_more(config: SegmentConfig, audio: Seq<i16>, done: Seq<Stretch>, s: Stretch)
    ensures
        kept(config, audio, done.push(s)) == (if worth_keeping(config, s) {
            kept(config, audio, done).push(audio.subrange(s.start, s.end))
        } else {
            kept(config, audio, done)
        }),
{
    assert(done.push(s).drop_last() =~= done);
}

/// What the segmenter gives when a pause that has become long enough closes a
/// segment.
proof fn lemma_pause_closes(
    config: SegmentConfig,
    audio: Seq<i16>,
    vad: VadView,
    start: int,
    tail: int,
    now: int,
    frame: Seq<i16>,
    verdict: Verdict,
)
    requires
        0 <= start <= tail <= now - 512,
        now <= audio.len(),
        frame == audio.subrange(now - 512, now),
        !verdict.voiced,
        vad.trailing == audio.subrange(tail, now - 512),
        vad.speech matches Some(speech) && speech.samples == audio.subrange(start, tail)
            && speech.silence_ms + 32 >= config.end_silence_ms,
    ensures
        ({
            let (next, segment) = vad.after_frame(config, frame, verdict);
            let padding = 16 * config.padding_ms;
            let end = if tail + padding < now {
                tail + padding
            } else {
                now
            };
            &&& next.speech is None
            &&& next.trailing.len() == 0
            &&& next.before == last_n(audio.subrange(end, now), padding)
            &&& segment == (if (end - start) / 16 % 0x1_0000_0000 >= config.min_segment_ms {
                Some(audio.subrange(start, end))
            } else {
                None
            })
        }),
{
    let padding = 16 * config.padding_ms;
    assert(samples_in(config.padding_ms as int) == padding);
    assert(vad.trailing + frame =~= audio.subrange(tail, now));
    lemma_split(audio, start, tail, now, padding);
}

/// A frame without voice in an open stretch.
#[verifier::rlimit(40)]
proof fn lemma_pause_step(
    config: SegmentConfig,
    audio: Seq<i16>,
    verdicts: Seq<Verdict>,
    n: int,
    vad: VadView,
    segments: Seq<Seq<i16>>,
    done: Seq<Stretch>,
    s: Stretch,
    frame: Seq<i16>,
) -> (r: (Seq<Stretch>, Option<Stretch>))
    requires
        0 <= n < verdicts.len(),
        audio.len() >= 512 * n + 512,
        frame == audio.subrange(512 * n, 512 * n + 512),
        !verdicts[n].voiced && !verdicts[n].speech,
        followed(config, audio, verdicts, n, vad, segments, done, Some(s)),
    ensures
        ({
            let (next, segment) = vad.after_frame(config, frame, verdicts[n]);
            let out = match segment {
                Some(samples) => segments.push(samples),
                None => segments,
            };
            followed(config, audio, verdicts, n + 1, next, out, r.0, r.1)
        }),
{
    let padding = 16 * config.padding_ms;
    let now = 512 * (n + 1);
    let tail = 512 * (s.last + 1);
    let pause = n - s.last;
    let longer = Stretch { closed: n + 1, ..s };
    lemma_verdict(config, verdicts, n, s.last + 1);
    lemma_covered_more(verdicts, n, done, Some(s), Some(longer));
    lemma_all_closed_more(config, verdicts, n, done);
    if 32 * pause >= config.end_silence_ms {
        let end = if tail + padding < now {
            tail + padding
        } else {
            now
        };
        let closing = Stretch { end, full: false, ..longer };
        lemma_pause_closes(config, audio, vad, s.start, tail, now, frame, verdicts[n]);
        lemma_kept_more(config, audio, done, closing);
        assert(closed_well(config, verdicts, -1, closing));
        lemma_pushed(config, verdicts, -1, done, closing);
        lemma_covered_closing(verdicts, n + 1, done, longer, closing);
        (done.push(closing), None)
    } else {
        assert(vad.trailing + frame =~= audio.subrange(tail, now));
        (done, Some(longer))
    }
}

proof fn lemma_followed(
    config: SegmentConfig,
    frames: Seq<Seq<i16>>,
    verdicts: Seq<Verdict>,
    n: nat,
) -> (r: (Seq<Stretch>, Option<Stretch>))
    requires
        n <= frames.len() == verdicts.len(),
        forall|k: int| 0 <= k < frames.len() ==> (#[trigger] frames[k]).len() == 512,
        forall|k: int|
            0 <= k < verdicts.len() && (#[trigger] verdicts[k]).speech ==> verdicts[k].voiced,
    ensures
        followed(
            config,
            audio_of(frames),
            verdicts,
            n as int,
            cut(config, frames, verdicts, n).0,
            cut(config, frames, verdicts, n).1,
            r.0,
            r.1,
        ),
    decreases n,
{
    let audio = audio_of(frames);
    lemma_audio(frames);
    if n == 0 {
        reveal(all_closed);
        reveal(covered);
        reveal(no_speech);
        assert(last_n(audio.subrange(0, 0), 16 * config.padding_ms) =~= Seq::<i16>::empty());
        (Seq::empty(), None)
    } else {
        let m: int = n - 1;
        let (done, open) = lemma_followed(config, frames, verdicts, m as nat);
        let (vad, segments) = cut(config, frames, verdicts, m as nat);
        let frame = frames[m];
        assert(audio.subrange(512 * m, 512 * m + 512) == frame);
        assert(verdicts[m].speech ==> verdicts[m].voiced);
        match open {
            None => {
                let next = lemma_quiet_step(
                    config,
                    audio,
                    verdicts,
                    m,
                    vad,
                    segments,
                    done,
                    frame,
                );
                (done, next)
            },
            Some(s) => if verdicts[m].voiced {
                lemma_voiced_step(config, audio, verdicts, m, vad, segments, done, s, frame)
            } else {
                lemma_pause_step(config, audio, verdicts, m, vad, segments, done, s, frame)
            },
        }
    }
}

/// The end of the audio loses nothing: an open segment comes out with everything
/// that was collected since its onset, and then as much of the pause as the
/// padding allows, however long the pause, if that lasts long enough.
pub proof fn law_the_end_gives_the_open_segment(vad: VadView, config: SegmentConfig)
    ensures
        ({
            let padding = 16 * config.padding_ms;
            match vad.speech {
                None => vad.after_end(config).1 is None,
                Some(speech) => {
                    let more = if vad.trailing.len() < padding {
                        vad.trailing.len() as int
                    } else {
                        padding as int
                    };
                    let all = speech.samples + vad.trailing.take(more);
                    vad.after_end(config).1 == (if all.len() as int / 16 % 0x1_0000_0000
                        >= config.min_segment_ms {
                        Some(all)
                    } else {
                        None
                    })
                },
            }
        }),
{
    assert(vad.trailing.take(vad.trailing.len() as int) =~= vad.trailing);
    assert(samples_in(config.padding_ms as int) == 16 * config.padding_ms);
}

/// A segment sounds like the recording: each of its samples is off by at most
/// one step, towards silence.
pub proof fn law_segments_sound_alike(samples: Seq<i16>)
    ensures
        segment_pcm(samples).len() == 2 * samples.len(),
        pcm::samples_of(segment_pcm(samples)).len() == samples.len(),
        forall|i: int|
            0 <= i < samples.len() ==> {
                let got = #[trigger] pcm::samples_of(segment_pcm(samples))[i];
                &&& samples[i] > 0 ==> got == samples[i] - 1
                &&& samples[i] < 0 ==> got == samples[i] + 1
                &&& samples[i] == 0 ==> got == 0
            },
{
    pcm::law_samples_read_back(samples.map_values(|s: i16| rescaled(s)));
}

/// The ends of a stretch of audio are its ends: as many samples as asked for, or
/// all of them.
pub proof fn law_ends_are_ends(s: Seq<i16>, n: int)
    requires
        0 <= n,
    ensures
        s.len() <= n ==> first_n(s, n) == s && last_n(s, n) == s,
        s.len() > n ==> first_n(s, n) == s.subrange(0, n) && last_n(s, n) == s.subrange(
            s.len() - n,
            s.len() as int,
        ),
{
}

/// A millisecond is sixteen samples, and samples are counted back in whole
/// milliseconds, as far as 32 bits go.
pub proof fn law_durations(ms: int, samples: int)
    requires
        0 <= ms,
        0 <= samples,
    ensures
        samples_in(ms) == 16 * ms,
        ms_in(16 * ms) == ms % 0x1_0000_0000,
        samples < 16 * 0x1_0000_0000 ==> 16 * ms_in(samples) <= samples < 16 * ms_in(samples) + 16,
{
}

/// At the start nothing was heard: nothing waits, no segment is open, and the
/// model is shown 64 samples of silence before the first frame.
pub proof fn law_nothing_was_heard_at_the_start()
    ensures
        ({
            let v = VadView::initial();
            &&& v.pending.len() == 0 && v.before.len() == 0 && v.trailing.len() == 0
            &&& v.speech is None
            &&& v.context.len() == 64
            &&& forall|i: int| 0 <= i < 64 ==> #[trigger] v.context[i] == 0
        }),
{
}

/// While audio is taken frame by frame, the model is shown the last 64 samples
/// before each frame, and no sample is passed over: the frame is the next 512
/// samples that wait, and the others go on waiting.
pub proof fn law_frames_follow_each_other(
    work: Work,
    config: SegmentConfig,
    model: spec_fn(Seq<i16>) -> Verdict,
)
    requires
        work.vad.pending.len() >= 512,
    ensures
        ({
            let next = work.after_frame(config, model);
            let frame = work.vad.pending.subrange(0, 512);
            &&& next.heard == work.heard + frame
            &&& frame + next.vad.pending == work.vad.pending
            &&& next.vad.context == next.heard.subrange(
                next.heard.len() - 64,
                next.heard.len() as int,
            )
        }),
{
    let next = work.after_frame(config, model);
    let frame = work.vad.pending.subrange(0, 512);
    assert(work.vad.pending.take(512) =~= frame);
    assert(frame + work.vad.pending.skip(512) =~= work.vad.pending);
    assert(last_n(frame, 64) =~= next.heard.subrange(
        next.heard.len() - 64,
        next.heard.len() as int,
    ));
}

/// The segment that is handed out is the one that was cut: there is one exactly if
/// one was cut, with as many samples, each off by at most one step.
pub proof fn law_segments_are_handed_out(r: Option<SpeechSegment>, samples: Option<Seq<i16>>)
    requires
        is_segment(r, samples),
    ensures
        r is Some <==> samples is Some,
        r matches Some(segment) ==> {
            let got = pcm::samples_of(segment.pcm@);
            &&& got.len() == samples->0.len()
            &&& forall|i: int|
                0 <= i < got.len() ==> -1 <= #[trigger] got[i] - samples->0[i] <= 1
        },
{
    if let Some(s) = samples {
        law_segments_sound_alike(s);
        let got = pcm::samples_of(segment_pcm(s));
        assert forall|i: int| 0 <= i < got.len() implies -1 <= #[trigger] got[i] - s[i] <= 1 by {
            assert(s[i] > 0 || s[i] < 0 || s[i] == 0);
        }
    }
}

} // verus!
