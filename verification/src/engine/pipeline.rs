//! The pipeline of one session: audio in, segments out to recognition, the
//! recognised pieces back in order, and cleanup at the end.
//!
//! A caller does the waiting. It hands in what arrived, and each step says
//! what to do next or how the run ends.

use crate::engine::asr::{AsrOutput, AsrRequest, ProviderError};
use crate::engine::config::CoreConfig;
use crate::engine::llm::LlmOutput;
use crate::engine::params::{self, build_llm_prompt, SessionParams};
use crate::engine::usage::{self, merge_asr_usage, UsageView};
use crate::engine::vad::SpeechSegment;
use crate::proto::{error_code, AsrUsage, LlmUsage, Response, SessionStats};
use crate::text;
use vstd::prelude::*;

verus! {

// ─── How a run ends ────────────────────────────────────────────────────

/// Why a run gave no text.
#[derive(Debug, Clone)]
pub enum PipelineError {
    Cancelled,
    NoAudio,
    Timeout,
    AsrFailed(String),
    LlmFailed(String),
}

impl PipelineError {
    /// The message that the session's error response carries.
    pub open spec fn text(&self) -> Seq<char> {
        match *self {
            PipelineError::Cancelled => error_code::CANCELLED@,
            PipelineError::NoAudio => error_code::NO_AUDIO@,
            PipelineError::Timeout => error_code::TIMEOUT@,
            PipelineError::AsrFailed(detail) => error_code::ASR_FAILED_PREFIX@ + " "@ + detail@,
            PipelineError::LlmFailed(detail) => error_code::LLM_FAILED_PREFIX@ + " "@ + detail@,
        }
    }

    pub fn message(&self) -> (r: String)
        ensures
            r@ == self.text(),
    {
        match self {
            PipelineError::Cancelled => error_code::CANCELLED.to_owned(),
            PipelineError::NoAudio => error_code::NO_AUDIO.to_owned(),
            PipelineError::Timeout => error_code::TIMEOUT.to_owned(),
            PipelineError::AsrFailed(detail) => error_code::ASR_FAILED_PREFIX.to_owned().concat(
                " ",
            ).concat(detail.as_str()),
            PipelineError::LlmFailed(detail) => error_code::LLM_FAILED_PREFIX.to_owned().concat(
                " ",
            ).concat(detail.as_str()),
        }
    }
}

/// Which provider an error comes from.
#[derive(Debug, Clone, Copy, PartialEq, Eq, Structural)]
pub enum ProviderStage {
    Asr,
    Llm,
}

/// The kind of a provider error: a request that ran into its time limit is a
/// timeout whatever the stage.
pub fn classify_provider_err(err: ProviderError, stage: ProviderStage) -> (r: PipelineError)
    ensures
        r == (if err.timed_out {
            PipelineError::Timeout
        } else {
            match stage {
                ProviderStage::Asr => PipelineError::AsrFailed(err.message),
                ProviderStage::Llm => PipelineError::LlmFailed(err.message),
            }
        }),
{
    if err.timed_out {
        PipelineError::Timeout
    } else {
        match stage {
            ProviderStage::Asr => PipelineError::AsrFailed(err.message),
            ProviderStage::Llm => PipelineError::LlmFailed(err.message),
        }
    }
}

/// What a successful run gives.
#[derive(Debug, Clone)]
pub struct PipelineOutput {
    /// Final text: cleaned up, or the recognised text itself.
    pub text: String,
    /// Recognised text before cleanup.
    pub raw: String,
    pub language: Option<String>,
    pub stats: SessionStats,
}

/// The terminal response that a run leaves. A cancelled run leaves none:
/// whoever cancelled it has sent one.
pub fn terminal_response(
    id: u64,
    cancelled: bool,
    outcome: Result<PipelineOutput, PipelineError>,
) -> (r: Option<Response>)
    ensures
        r is None <==> cancelled || outcome == Err::<PipelineOutput, PipelineError>(
            PipelineError::Cancelled,
        ),
        r matches Some(response) ==> response.ends(id),
        r matches Some(response) ==> match outcome {
            Ok(out) => response == (Response::Result {
                id,
                text: out.text,
                raw: Some(out.raw),
                language: out.language,
                stats: out.stats,
            }),
            Err(e) => response.is_error(id, e.text()),
        },
{
    if cancelled {
        return None;
    }
    match outcome {
        Ok(out) => Some(
            Response::Result {
                id,
                text: out.text,
                raw: Some(out.raw),
                language: out.language,
                stats: out.stats,
            },
        ),
        Err(PipelineError::Cancelled) => None,
        Err(e) => Some(Response::Error { id, message: e.message() }),
    }
}

// ─── Counting ──────────────────────────────────────────────────────────

/// `n` modulo two to the 32nd.
pub open spec fn low32(n: int) -> int {
    n % 0x1_0000_0000
}

fn low32_of(n: u128) -> (r: u32)
    ensures
        r == low32(n as int),
{
    (n % 0x1_0000_0000) as u32
}

/// The milliseconds that `bytes` of PCM16 16 kHz mono audio last.
pub fn pcm_bytes_to_ms(bytes: usize) -> (r: u32)
    ensures
        r == low32(bytes as int / 32),
{
    low32_of((bytes / 32) as u128)
}

/// The bytes of several segments together.
pub open spec fn segment_bytes(segments: Seq<SpeechSegment>) -> nat
    decreases segments.len(),
{
    if segments.len() == 0 {
        0
    } else {
        segment_bytes(segments.drop_last()) + segments.last().pcm@.len()
    }
}

// ─── Receiving audio in segments ───────────────────────────────────────

/// A segment on its way to recognition. The number is its place in the
/// spoken order.
#[derive(Debug, Clone)]
pub struct AsrJob {
    pub seq: u64,
    pub pcm: Vec<u8>,
}

/// The audio of a run that cuts at silences, while it comes in.
#[derive(Debug, Clone)]
pub struct SegmentedAudio {
    /// Bytes received.
    pub received: usize,
    /// Bytes handed to recognition.
    pub sent: usize,
    /// Number of the next segment.
    pub next_seq: u64,
}

/// Whether the jobs are the segments in order, numbered from `first`.
pub open spec fn jobs_for(jobs: Seq<AsrJob>, segments: Seq<SpeechSegment>, first: u64) -> bool {
    &&& jobs.len() == segments.len()
    &&& forall|i: int|
        0 <= i < jobs.len() ==> (#[trigger] jobs[i]).seq == first + i && jobs[i].pcm
            == segments[i].pcm
}

impl SegmentedAudio {
    pub fn new() -> (r: Self)
        ensures
            r == (SegmentedAudio { received: 0, sent: 0, next_seq: 0 }),
    {
        SegmentedAudio { received: 0, sent: 0, next_seq: 0 }
    }

    /// Takes `bytes` of audio and the segments that ended in it. Returns the
    /// recognition jobs to start.
    pub fn accept(&mut self, bytes: usize, segments: Vec<SpeechSegment>) -> (r: Vec<AsrJob>)
        requires
            old(self).received + bytes <= usize::MAX,
            old(self).sent + segment_bytes(segments@) <= usize::MAX,
            old(self).next_seq + segments@.len() <= u64::MAX,
        ensures
            jobs_for(r@, segments@, old(self).next_seq),
            final(self).received == old(self).received + bytes,
            final(self).sent == old(self).sent + segment_bytes(segments@),
            final(self).next_seq == old(self).next_seq + segments@.len(),
    {
        self.received = self.received + bytes;
        let ghost all = segments@;
        let ghost first = self.next_seq;
        let ghost sent = self.sent;
        let mut jobs: Vec<AsrJob> = Vec::new();
        assert(all.take(0) =~= Seq::<SpeechSegment>::empty());
        for segment in it: segments
            invariant
                it.seq() == all,
                jobs_for(jobs@, all.take(it.index() as int), first),
                self.received == old(self).received + bytes,
                first == old(self).next_seq,
                sent == old(self).sent,
                self.sent == sent + segment_bytes(all.take(it.index() as int)),
                self.next_seq == first + it.index(),
                sent + segment_bytes(all) <= usize::MAX,
                first + all.len() <= u64::MAX,
        {
            let ghost k = it.index() as int;
            proof {
                assert(all.take(k + 1).drop_last() =~= all.take(k));
                lemma_segment_bytes_grow(all, k + 1);
            }
            self.sent = self.sent + segment.pcm.len();
            jobs.push(AsrJob { seq: self.next_seq, pcm: segment.pcm });
            self.next_seq = self.next_seq + 1;
        }
        assert(all.take(all.len() as int) =~= all);
        jobs
    }

    /// Takes the end of the audio, with speech that no silence had closed.
    pub fn close(&mut self, tail: Option<SpeechSegment>) -> (r: Option<AsrJob>)
        requires
            tail matches Some(segment) ==> old(self).sent + segment.pcm@.len() <= usize::MAX && old(
                self,
            ).next_seq < u64::MAX,
        ensures
            match tail {
                Some(segment) => r == Some(
                    AsrJob { seq: old(self).next_seq, pcm: segment.pcm },
                ) && *final(self) == (SegmentedAudio {
                    received: old(self).received,
                    sent: (old(self).sent + segment.pcm@.len()) as usize,
                    next_seq: (old(self).next_seq + 1) as u64,
                }),
                None => r is None && *final(self) == *old(self),
            },
    {
        match tail {
            Some(segment) => {
                let seq: u64 = self.next_seq;
                self.sent = self.sent + segment.pcm.len();
                self.next_seq = seq + 1;
                Some(AsrJob { seq, pcm: segment.pcm })
            },
            None => None,
        }
    }
}

proof fn lemma_segment_bytes_grow(segments: Seq<SpeechSegment>, k: int)
    requires
        0 <= k <= segments.len(),
    ensures
        segment_bytes(segments.take(k)) <= segment_bytes(segments),
    decreases segments.len(),
{
    if k < segments.len() {
        assert(segments.drop_last().take(k) =~= segments.take(k));
        lemma_segment_bytes_grow(segments.drop_last(), k);
    } else {
        assert(segments.take(k) =~= segments);
    }
}

// ─── Collecting what recognition gives ─────────────────────────────────

/// How one recognition task ended.
#[derive(Debug, Clone)]
pub enum AsrEvent {
    /// It gave text after so many milliseconds.
    Done { seq: u64, output: AsrOutput, elapsed_ms: u128 },
    /// The provider failed.
    Failed { seq: u64, error: ProviderError },
    /// The task itself broke down, with the runtime's description.
    Crashed { what: String },
}

/// The recognised segments so far, in spoken order.
#[derive(Debug, Clone)]
pub struct AsrResults {
    pub outputs: Vec<(u64, AsrOutput)>,
    /// Time of the slowest call.
    pub slowest_ms: u32,
}

/// The recognised segments as a mathematical value.
#[verifier::ext_equal]
pub struct ResultsView {
    pub outputs: Seq<(u64, AsrOutput)>,
    pub slowest_ms: u32,
}

impl View for AsrResults {
    type V = ResultsView;

    open spec fn view(&self) -> ResultsView {
        ResultsView { outputs: self.outputs@, slowest_ms: self.slowest_ms }
    }
}

/// Whether the segments are in spoken order, each number once.
pub open spec fn in_order(outputs: Seq<(u64, AsrOutput)>) -> bool {
    forall|i: int, j: int|
        0 <= i < j < outputs.len() ==> (#[trigger] outputs[i]).0 < (#[trigger] outputs[j]).0
}

/// `outputs` with the output of segment `seq` at its place. One that was there
/// is replaced.
pub open spec fn placed(
    outputs: Seq<(u64, AsrOutput)>,
    seq: u64,
    output: AsrOutput,
) -> Seq<(u64, AsrOutput)>
    decreases outputs.len(),
{
    if outputs.len() == 0 {
        seq![(seq, output)]
    } else if outputs.first().0 < seq {
        seq![outputs.first()] + placed(outputs.drop_first(), seq, output)
    } else if outputs.first().0 == seq {
        seq![(seq, output)] + outputs.drop_first()
    } else {
        seq![(seq, output)] + outputs
    }
}

/// The results after segment `seq` was recognised in `elapsed_ms`.
pub open spec fn with_result(
    results: ResultsView,
    seq: u64,
    output: AsrOutput,
    elapsed_ms: u128,
) -> ResultsView {
    let ms = low32(elapsed_ms as int) as u32;
    ResultsView {
        outputs: placed(results.outputs, seq, output),
        slowest_ms: if ms > results.slowest_ms {
            ms
        } else {
            results.slowest_ms
        },
    }
}

impl AsrResults {
    pub open spec fn valid(&self) -> bool {
        in_order(self.outputs@)
    }

    pub fn new() -> (r: Self)
        ensures
            r.valid(),
            r@ == (ResultsView { outputs: seq![], slowest_ms: 0 }),
    {
        AsrResults { outputs: Vec::new(), slowest_ms: 0 }
    }

    /// Takes the end of one recognition task. A failed task ends the run.
    pub fn collect(&mut self, event: AsrEvent) -> (r: Result<(), PipelineError>)
        requires
            old(self).valid(),
        ensures
            final(self).valid(),
            match event {
                AsrEvent::Done { seq, output, elapsed_ms } => r is Ok && final(self)@
                    == with_result(old(self)@, seq, output, elapsed_ms),
                AsrEvent::Failed { seq, error } => final(self)@ == old(self)@ && match r {
                    Err(PipelineError::Timeout) => error.timed_out,
                    Err(PipelineError::AsrFailed(detail)) => !error.timed_out && detail@ == "seq "@
                        + text::decimal(seq as nat) + ": "@ + error.message@,
                    _ => false,
                },
                AsrEvent::Crashed { what } => final(self)@ == old(self)@ && (r matches Err(
                    PipelineError::AsrFailed(detail),
                ) && detail@ == "join error: "@ + what@),
            },
    {
        match event {
            AsrEvent::Done { seq, output, elapsed_ms } => {
                self.place(seq, output);
                let ms: u32 = low32_of(elapsed_ms);
                if ms > self.slowest_ms {
                    self.slowest_ms = ms;
                }
                Ok(())
            },
            AsrEvent::Failed { seq, error } => {
                let context = "seq ".to_owned().concat(text::decimal_of(seq).as_str()).concat(
                    ": ",
                ).concat(error.message.as_str());
                Err(
                    classify_provider_err(
                        ProviderError { timed_out: error.timed_out, message: context },
                        ProviderStage::Asr,
                    ),
                )
            },
            AsrEvent::Crashed { what } => Err(
                PipelineError::AsrFailed("join error: ".to_owned().concat(what.as_str())),
            ),
        }
    }

    fn place(&mut self, seq: u64, output: AsrOutput)
        requires
            old(self).valid(),
        ensures
            final(self).valid(),
            final(self).outputs@ == placed(old(self).outputs@, seq, output),
            final(self).slowest_ms == old(self).slowest_ms,
    {
        let ghost all = self.outputs@;
        let mut i: usize = 0;
        assert(all.skip(0) =~= all);
        assert(all.take(0) + placed(all, seq, output) =~= placed(all, seq, output));
        while i < self.outputs.len() && self.outputs[i].0 < seq
            invariant
                self.outputs@ == all,
                self.slowest_ms == old(self).slowest_ms,
                i <= all.len(),
                forall|j: int| 0 <= j < i ==> (#[trigger] all[j]).0 < seq,
                all.take(i as int) + placed(all.skip(i as int), seq, output) == placed(
                    all,
                    seq,
                    output,
                ),
            decreases all.len() - i,
        {
            let ghost rest = all.skip(i as int);
            assert(rest.drop_first() =~= all.skip(i + 1));
            assert(all.take(i as int) + (seq![rest.first()] + placed(all.skip(i + 1), seq, output))
                =~= all.take(i + 1) + placed(all.skip(i + 1), seq, output));
            i += 1;
        }
        let ghost rest = all.skip(i as int);
        if i < self.outputs.len() && self.outputs[i].0 == seq {
            self.outputs.set(i, (seq, output));
            assert(rest.drop_first() =~= all.skip(i + 1));
            assert(self.outputs@ =~= all.take(i as int) + (seq![(seq, output)] + rest.drop_first()));
        } else {
            assert(i < all.len() ==> rest.first() == all[i as int]);
            self.outputs.insert(i, (seq, output));
            assert(self.outputs@ =~= all.take(i as int) + (seq![(seq, output)] + rest));
            assert(rest.len() == 0 ==> seq![(seq, output)] + rest =~= seq![(seq, output)]);
        }
    }
}

/// Which task ends first makes no difference to the results.
pub proof fn law_completion_order_is_irrelevant(
    results: ResultsView,
    seq_a: u64,
    output_a: AsrOutput,
    ms_a: u128,
    seq_b: u64,
    output_b: AsrOutput,
    ms_b: u128,
)
    requires
        seq_a != seq_b,
    ensures
        with_result(with_result(results, seq_a, output_a, ms_a), seq_b, output_b, ms_b)
            == with_result(with_result(results, seq_b, output_b, ms_b), seq_a, output_a, ms_a),
{
    lemma_placed_commutes(results.outputs, seq_a, output_a, seq_b, output_b);
}

proof fn lemma_placed_commutes(
    outputs: Seq<(u64, AsrOutput)>,
    seq_a: u64,
    output_a: AsrOutput,
    seq_b: u64,
    output_b: AsrOutput,
)
    requires
        seq_a != seq_b,
    ensures
        placed(placed(outputs, seq_a, output_a), seq_b, output_b) == placed(
            placed(outputs, seq_b, output_b),
            seq_a,
            output_a,
        ),
    decreases outputs.len(),
{
    reveal_with_fuel(placed, 3);
    let a = (seq_a, output_a);
    let b = (seq_b, output_b);
    if outputs.len() == 0 {
        assert((seq![a]).drop_first() =~= Seq::<(u64, AsrOutput)>::empty());
        assert((seq![b]).drop_first() =~= Seq::<(u64, AsrOutput)>::empty());
        assert(seq![a] + seq![b] =~= seq![a, b]);
        assert(seq![b] + seq![a] =~= seq![b, a]);
    } else {
        let h = outputs.first();
        let t = outputs.drop_first();
        if h.0 < seq_a && h.0 < seq_b {
            lemma_placed_commutes(t, seq_a, output_a, seq_b, output_b);
        }
        assert((seq![h] + placed(t, seq_a, output_a)).drop_first() =~= placed(t, seq_a, output_a));
        assert((seq![h] + placed(t, seq_b, output_b)).drop_first() =~= placed(t, seq_b, output_b));
        assert((seq![a] + t).drop_first() =~= t);
        assert((seq![b] + t).drop_first() =~= t);
        assert((seq![a] + outputs).drop_first() =~= outputs);
        assert((seq![b] + outputs).drop_first() =~= outputs);
        assert(seq![h] + t =~= outputs);
    }
}

// ─── The recognised text ───────────────────────────────────────────────

/// The recognised text of a run and its counters, before cleanup.
#[derive(Debug, Clone)]
pub struct Transcript {
    pub raw: String,
    pub language: Option<String>,
    pub pcm_received_ms: u32,
    pub pcm_sent_to_asr_ms: u32,
    pub vad_segments: Option<u32>,
    pub asr_calls: u32,
    pub asr_upload_bytes: u64,
    pub asr_latency_ms: u32,
    pub asr_usage: Option<AsrUsage>,
}

/// The recognised texts of the segments, in order.
pub open spec fn segment_texts(outputs: Seq<(u64, AsrOutput)>) -> Seq<Seq<char>> {
    outputs.map_values(|o: (u64, AsrOutput)| o.1.text@)
}

/// The language of the first segment that reports one.
pub open spec fn first_language(outputs: Seq<(u64, AsrOutput)>) -> Option<Seq<char>>
    decreases outputs.len(),
{
    if outputs.len() == 0 {
        None
    } else if first_language(outputs.drop_last()) is Some {
        first_language(outputs.drop_last())
    } else {
        params::optional_text(outputs.last().1.language)
    }
}

/// The bytes uploaded for all segments.
pub open spec fn uploaded(outputs: Seq<(u64, AsrOutput)>) -> nat
    decreases outputs.len(),
{
    if outputs.len() == 0 {
        0
    } else {
        uploaded(outputs.drop_last()) + outputs.last().1.upload_bytes as nat
    }
}

/// The usage summed over the segments, in order.
pub open spec fn total_usage(outputs: Seq<(u64, AsrOutput)>) -> Option<UsageView>
    decreases outputs.len(),
{
    if outputs.len() == 0 {
        None
    } else {
        usage::sum_usage(total_usage(outputs.drop_last()), usage::optional_usage(outputs.last().1.usage))
    }
}

proof fn lemma_uploaded_grows(outputs: Seq<(u64, AsrOutput)>, k: int)
    requires
        0 <= k <= outputs.len(),
    ensures
        uploaded(outputs.take(k)) <= uploaded(outputs),
    decreases outputs.len(),
{
    if k < outputs.len() {
        assert(outputs.drop_last().take(k) =~= outputs.take(k));
        lemma_uploaded_grows(outputs.drop_last(), k);
    } else {
        assert(outputs.take(k) =~= outputs);
    }
}

impl AsrResults {
    /// Puts the recognised segments together, once all tasks have ended. A run
    /// without any recognised segment had no audio.
    pub fn into_transcript(self, audio: &SegmentedAudio) -> (r: Result<Transcript, PipelineError>)
        requires
            self.valid(),
            uploaded(self.outputs@) <= u64::MAX,
        ensures
            self.outputs@.len() == 0 <==> r == Err::<Transcript, PipelineError>(
                PipelineError::NoAudio,
            ),
            self.outputs@.len() > 0 ==> r is Ok,
            r matches Ok(t) ==> {
                &&& t.raw@ == text::joined(segment_texts(self.outputs@), " "@)
                &&& params::optional_text(t.language) == first_language(self.outputs@)
                &&& t.pcm_received_ms == low32(audio.received as int / 32)
                &&& t.pcm_sent_to_asr_ms == low32(audio.sent as int / 32)
                &&& t.vad_segments == Some(low32(audio.next_seq as int) as u32)
                &&& t.asr_calls == low32(self.outputs@.len() as int)
                &&& t.asr_upload_bytes == uploaded(self.outputs@)
                &&& t.asr_latency_ms == self.slowest_ms
                &&& usage::optional_usage(t.asr_usage) == total_usage(self.outputs@)
            },
    {
        let ghost all = self.outputs@;
        if self.outputs.is_empty() {
            return Err(PipelineError::NoAudio);
        }
        let calls: usize = self.outputs.len();
        let mut upload: u64 = 0;
        let mut usage: Option<AsrUsage> = None;
        let mut language: Option<String> = None;
        let mut pieces: Vec<String> = Vec::new();
        assert(all.take(0) =~= Seq::<(u64, AsrOutput)>::empty());
        for pair in it: self.outputs
            invariant
                it.seq() == all,
                uploaded(all) <= u64::MAX,
                upload == uploaded(all.take(it.index() as int)),
                usage::optional_usage(usage) == total_usage(all.take(it.index() as int)),
                params::optional_text(language) == first_language(all.take(it.index() as int)),
                text::texts(pieces@) == segment_texts(all.take(it.index() as int)),
        {
            let ghost k = it.index() as int;
            let ghost before = text::texts(pieces@);
            proof {
                assert(all.take(k + 1).drop_last() =~= all.take(k));
                lemma_uploaded_grows(all, k + 1);
            }
            let output = pair.1;
            upload = upload + output.upload_bytes;
            usage = merge_asr_usage(usage, output.usage);
            if language.is_none() {
                language = output.language;
            }
            pieces.push(output.text);
            assert(text::texts(pieces@) =~= before.push(output.text@));
            assert(segment_texts(all.take(k + 1)) =~= segment_texts(all.take(k)).push(
                output.text@,
            ));
        }
        assert(all.take(all.len() as int) =~= all);
        Ok(
            Transcript {
                raw: text::join(pieces.as_slice(), " "),
                language,
                pcm_received_ms: pcm_bytes_to_ms(audio.received),
                pcm_sent_to_asr_ms: pcm_bytes_to_ms(audio.sent),
                vad_segments: Some(low32_of(audio.next_seq as u128)),
                asr_calls: low32_of(calls as u128),
                asr_upload_bytes: upload,
                asr_latency_ms: self.slowest_ms,
                asr_usage: usage,
            },
        )
    }
}

// ─── Receiving audio as one piece ──────────────────────────────────────

/// The audio of a run that recognises everything at once.
#[derive(Debug, Clone)]
pub struct WholeAudio {
    pub buf: Vec<u8>,
}

impl WholeAudio {
    pub fn new() -> (r: Self)
        ensures
            r.buf@ == Seq::<u8>::empty(),
    {
        WholeAudio { buf: Vec::new() }
    }

    pub fn accept(&mut self, pcm: &[u8])
        ensures
            final(self).buf@ == old(self).buf@ + pcm@,
    {
        self.buf.extend_from_slice(pcm);
        assert(self.buf@ =~= old(self).buf@ + pcm@);
    }

    /// The audio to recognise, once it is all there.
    pub fn close(self) -> (r: Result<Vec<u8>, PipelineError>)
        ensures
            r == (if self.buf@.len() == 0 {
                Err(PipelineError::NoAudio)
            } else {
                Ok(self.buf)
            }),
    {
        if self.buf.is_empty() {
            Err(PipelineError::NoAudio)
        } else {
            Ok(self.buf)
        }
    }
}

/// The transcript of a run with one recognition call on `pcm_bytes` of audio.
pub fn single_transcript(pcm_bytes: usize, output: AsrOutput, elapsed_ms: u128) -> (r: Transcript)
    ensures
        r == (Transcript {
            raw: output.text,
            language: output.language,
            pcm_received_ms: low32(pcm_bytes as int / 32) as u32,
            pcm_sent_to_asr_ms: low32(pcm_bytes as int / 32) as u32,
            vad_segments: None,
            asr_calls: 1,
            asr_upload_bytes: output.upload_bytes,
            asr_latency_ms: low32(elapsed_ms as int) as u32,
            asr_usage: output.usage,
        }),
{
    Transcript {
        raw: output.text,
        language: output.language,
        pcm_received_ms: pcm_bytes_to_ms(pcm_bytes),
        pcm_sent_to_asr_ms: pcm_bytes_to_ms(pcm_bytes),
        vad_segments: None,
        asr_calls: 1,
        asr_upload_bytes: output.upload_bytes,
        asr_latency_ms: low32_of(elapsed_ms),
        asr_usage: output.usage,
    }
}

/// The recognition call on `pcm` with a session's parameters.
pub fn asr_request<'a>(pcm: &'a [u8], params: &'a SessionParams) -> (r: AsrRequest<'a>)
    ensures
        r.pcm@ == pcm@,
        (match r.language {
            Some(l) => Some(l@),
            None => None,
        }) == params::optional_text(params.language),
        (match r.context {
            Some(c) => Some(c@),
            None => None,
        }) == params::optional_text(params.context),
        r.enable_itn == params.enable_itn,
{
    AsrRequest {
        pcm,
        language: match &params.language {
            Some(l) => Some(l.as_str()),
            None => None,
        },
        context: match &params.context {
            Some(c) => Some(c.as_str()),
            None => None,
        },
        enable_itn: params.enable_itn,
    }
}

// ─── Cleanup ───────────────────────────────────────────────────────────

/// A cleanup call.
#[derive(Debug, Clone)]
pub struct LlmCall {
    pub text: String,
    pub prompt: String,
}

/// What became of cleanup.
#[derive(Debug, Clone)]
pub enum Cleanup {
    /// It was not asked for.
    Skipped,
    /// It gave text after so many milliseconds.
    Done { output: LlmOutput, elapsed_ms: u128 },
    /// The provider failed.
    Failed { error: ProviderError },
}

impl Transcript {
    /// The cleanup call to make, unless the session goes without cleanup.
    pub fn cleanup_call(&self, config: &CoreConfig, params: &SessionParams) -> (r: Option<LlmCall>)
        ensures
            r is Some <==> params.llm_enabled,
            r matches Some(call) ==> call.text@ == self.raw@ && call.prompt@ == params::prompt_with_context(
                config.llm_prompt@,
                params::optional_text(params.context),
            ),
    {
        if !params.llm_enabled {
            return None;
        }
        let context: Option<&str> = match &params.context {
            Some(c) => Some(c.as_str()),
            None => None,
        };
        Some(
            LlmCall {
                text: self.raw.clone(),
                prompt: build_llm_prompt(config.llm_prompt.as_str(), context),
            },
        )
    }

    /// The counters of the run.
    pub open spec fn stats(
        self,
        llm_latency_ms: Option<u32>,
        llm_usage: Option<LlmUsage>,
        total_ms: u128,
    ) -> SessionStats {
        SessionStats {
            pcm_received_ms: self.pcm_received_ms,
            pcm_sent_to_asr_ms: self.pcm_sent_to_asr_ms,
            vad_segments: self.vad_segments,
            asr_calls: self.asr_calls,
            asr_upload_bytes: self.asr_upload_bytes,
            asr_latency_ms: self.asr_latency_ms,
            llm_latency_ms,
            total_latency_ms: low32(total_ms as int) as u32,
            asr_usage: self.asr_usage,
            llm_usage,
        }
    }

    /// The end of the run, `total_ms` after the end of the audio.
    pub fn finish(self, cleanup: Cleanup, total_ms: u128) -> (r: Result<
        PipelineOutput,
        PipelineError,
    >)
        ensures
            match cleanup {
                Cleanup::Skipped => r == Ok::<PipelineOutput, PipelineError>(
                    PipelineOutput {
                        text: self.raw,
                        raw: self.raw,
                        language: self.language,
                        stats: self.stats(None, None, total_ms),
                    },
                ),
                Cleanup::Done { output, elapsed_ms } => r == Ok::<PipelineOutput, PipelineError>(
                    PipelineOutput {
                        text: output.text,
                        raw: self.raw,
                        language: self.language,
                        stats: self.stats(
                            Some(low32(elapsed_ms as int) as u32),
                            output.usage,
                            total_ms,
                        ),
                    },
                ),
                Cleanup::Failed { error } => r == Err::<PipelineOutput, PipelineError>(
                    if error.timed_out {
                        PipelineError::Timeout
                    } else {
                        PipelineError::LlmFailed(error.message)
                    },
                ),
            },
    {
        let (text, llm_latency_ms, llm_usage) = match cleanup {
            Cleanup::Skipped => (self.raw.clone(), None, None),
            Cleanup::Done { output, elapsed_ms } => (
                output.text,
                Some(low32_of(elapsed_ms)),
                output.usage,
            ),
            Cleanup::Failed { error } => {
                return Err(classify_provider_err(error, ProviderStage::Llm));
            },
        };
        let stats = SessionStats {
            pcm_received_ms: self.pcm_received_ms,
            pcm_sent_to_asr_ms: self.pcm_sent_to_asr_ms,
            vad_segments: self.vad_segments,
            asr_calls: self.asr_calls,
            asr_upload_bytes: self.asr_upload_bytes,
            asr_latency_ms: self.asr_latency_ms,
            llm_latency_ms,
            total_latency_ms: low32_of(total_ms),
            asr_usage: self.asr_usage,
            llm_usage,
        };
        Ok(PipelineOutput { text, raw: self.raw, language: self.language, stats })
    }
}

// ─── Laws ──────────────────────────────────────────────────────────────

/// No result is lost: the one that came in is there, those of the other segments
/// stay, and nothing else is there. The results stay in spoken order, and the
/// slowest call is the slowest.
pub proof fn law_no_result_is_lost(
    results: ResultsView,
    seq: u64,
    output: AsrOutput,
    elapsed_ms: u128,
)
    requires
        in_order(results.outputs),
    ensures
        ({
            let after = with_result(results, seq, output, elapsed_ms);
            let ms = elapsed_ms as int % 0x1_0000_0000;
            &&& forall|i: int, j: int|
                0 <= i < j < after.outputs.len() ==> (#[trigger] after.outputs[i]).0
                    < (#[trigger] after.outputs[j]).0
            &&& after.outputs.contains((seq, output))
            &&& forall|i: int|
                0 <= i < results.outputs.len() && (#[trigger] results.outputs[i]).0 != seq
                    ==> after.outputs.contains(results.outputs[i])
            &&& forall|i: int|
                0 <= i < after.outputs.len() ==> {
                    ||| #[trigger] after.outputs[i] == (seq, output)
                    ||| after.outputs[i].0 != seq && results.outputs.contains(after.outputs[i])
                }
            &&& after.slowest_ms >= results.slowest_ms && after.slowest_ms >= ms
            &&& after.slowest_ms == results.slowest_ms || after.slowest_ms == ms
        }),
{
    lemma_placed(results.outputs, seq, output);
}

proof fn lemma_placed(outputs: Seq<(u64, AsrOutput)>, seq: u64, output: AsrOutput)
    requires
        in_order(outputs),
    ensures
        in_order(placed(outputs, seq, output)),
        placed(outputs, seq, output).contains((seq, output)),
        forall|i: int|
            0 <= i < outputs.len() && (#[trigger] outputs[i]).0 != seq ==> placed(
                outputs,
                seq,
                output,
            ).contains(outputs[i]),
        forall|i: int|
            0 <= i < placed(outputs, seq, output).len() ==> {
                ||| #[trigger] placed(outputs, seq, output)[i] == (seq, output)
                ||| placed(outputs, seq, output)[i].0 != seq && outputs.contains(
                    placed(outputs, seq, output)[i],
                )
            },
    decreases outputs.len(),
{
    let after = placed(outputs, seq, output);
    let new = (seq, output);
    if outputs.len() == 0 {
        assert(after[0] == new);
    } else if outputs.first().0 < seq {
        let rest = outputs.drop_first();
        let tail = placed(rest, seq, output);
        assert(in_order(rest)) by {
            assert forall|i: int, j: int| 0 <= i < j < rest.len() implies (#[trigger] rest[i]).0
                < (#[trigger] rest[j]).0 by {
                assert(rest[i] == outputs[i + 1] && rest[j] == outputs[j + 1]);
            }
        }
        lemma_placed(rest, seq, output);
        assert forall|i: int| 0 <= i < tail.len() implies #[trigger] tail[i] == after[i + 1] by {}
        assert(after.contains(new)) by {
            let k = choose|k: int| 0 <= k < tail.len() && tail[k] == new;
            assert(after[k + 1] == new);
        }
        assert forall|i: int|
            0 <= i < outputs.len() && (#[trigger] outputs[i]).0 != seq implies after.contains(
            outputs[i],
        ) by {
            if i == 0 {
                assert(after[0] == outputs[0]);
            } else {
                assert(rest[i - 1] == outputs[i]);
                let k = choose|k: int| 0 <= k < tail.len() && tail[k] == rest[i - 1];
                assert(after[k + 1] == outputs[i]);
            }
        }
        assert forall|i: int| 0 <= i < after.len() implies {
            ||| #[trigger] after[i] == new
            ||| after[i].0 != seq && outputs.contains(after[i])
        } by {
            if i == 0 {
                assert(outputs[0] == after[0]);
            } else {
                assert(tail[i - 1] == after[i]);
                if after[i] != new {
                    let k = choose|k: int| 0 <= k < rest.len() && rest[k] == tail[i - 1];
                    assert(outputs[k + 1] == after[i]);
                }
            }
        }
        assert forall|i: int, j: int| 0 <= i < j < after.len() implies (#[trigger] after[i]).0 < (
        #[trigger] after[j]).0 by {
            assert(after[j] == tail[j - 1]);
            if i == 0 {
                if tail[j - 1] != new {
                    let k = choose|k: int| 0 <= k < rest.len() && rest[k] == tail[j - 1];
                    assert(outputs[0].0 < outputs[k + 1].0);
                }
            } else {
                assert(after[i] == tail[i - 1]);
            }
        }
    } else if outputs.first().0 == seq {
        assert(after[0] == new);
        assert forall|i: int| 1 <= i < outputs.len() implies #[trigger] after[i] == outputs[i] by {
            assert(outputs.drop_first()[i - 1] == outputs[i]);
        }
        assert forall|i: int|
            0 <= i < outputs.len() && (#[trigger] outputs[i]).0 != seq implies after.contains(
            outputs[i],
        ) by {
            assert(after[i] == outputs[i]);
        }
        assert forall|i: int| 0 <= i < after.len() implies {
            ||| #[trigger] after[i] == new
            ||| after[i].0 != seq && outputs.contains(after[i])
        } by {
            if i > 0 {
                assert(after[i] == outputs[i]);
                assert(outputs[0].0 < outputs[i].0);
            }
        }
    } else {
        assert(after[0] == new);
        assert forall|i: int| 0 <= i < outputs.len() implies #[trigger] after[i + 1]
            == outputs[i] by {}
        assert forall|i: int|
            0 <= i < outputs.len() && (#[trigger] outputs[i]).0 != seq implies after.contains(
            outputs[i],
        ) by {
            assert(after[i + 1] == outputs[i]);
        }
        assert forall|i: int| 0 <= i < after.len() implies {
            ||| #[trigger] after[i] == new
            ||| after[i].0 != seq && outputs.contains(after[i])
        } by {
            if i > 0 {
                assert(after[i] == outputs[i - 1]);
                assert(i > 1 ==> outputs[0].0 < outputs[i - 1].0);
            }
        }
        assert forall|i: int, j: int| 0 <= i < j < after.len() implies (#[trigger] after[i]).0 < (
        #[trigger] after[j]).0 by {
            assert(after[j] == outputs[j - 1]);
            assert(j > 1 ==> outputs[0].0 < outputs[j - 1].0);
            if i > 0 {
                assert(after[i] == outputs[i - 1]);
            }
        }
    }
}

/// The language of a run is the one that the first segment to report any has
/// reported; there is none if no segment has.
pub proof fn law_the_first_report_names_the_language(outputs: Seq<(u64, AsrOutput)>) -> (k: int)
    ensures
        0 <= k <= outputs.len(),
        forall|i: int| 0 <= i < k ==> (#[trigger] outputs[i]).1.language is None,
        k == outputs.len() ==> first_language(outputs) is None,
        k < outputs.len() ==> (outputs[k].1.language matches Some(tag) && first_language(outputs)
            == Some(tag@)),
    decreases outputs.len(),
{
    if outputs.len() == 0 {
        0
    } else {
        let earlier = outputs.drop_last();
        let k = law_the_first_report_names_the_language(earlier);
        assert forall|i: int| 0 <= i < k implies (#[trigger] outputs[i]).1.language is None by {
            assert(earlier[i] == outputs[i]);
        }
        if k < earlier.len() {
            assert(earlier[k] == outputs[k]);
            k
        } else if outputs.last().1.language is None {
            k + 1
        } else {
            k
        }
    }
}

/// The texts of the segments stand in the text of the run in spoken order, each
/// once, with a blank between each two.
pub proof fn law_the_transcript_is_in_spoken_order(
    a: Seq<(u64, AsrOutput)>,
    b: Seq<(u64, AsrOutput)>,
    output: (u64, AsrOutput),
)
    ensures
        text::joined(segment_texts(seq![output]), " "@) == output.1.text@,
        a.len() > 0 && b.len() > 0 ==> text::joined(segment_texts(a + b), " "@) == text::joined(
            segment_texts(a),
            " "@,
        ) + " "@ + text::joined(segment_texts(b), " "@),
{
    assert(segment_texts(seq![output]) =~= seq![output.1.text@]);
    assert(segment_texts(a + b) =~= segment_texts(a) + segment_texts(b));
    text::law_joining_keeps_all_parts(segment_texts(a), segment_texts(b), output.1.text@, " "@);
}

/// The counters of a run count every segment: what two halves of a run uploaded
/// and were handed adds up, and so does each segment by itself.
pub proof fn law_counters_count_every_segment(
    a: Seq<(u64, AsrOutput)>,
    b: Seq<(u64, AsrOutput)>,
    output: (u64, AsrOutput),
    x: Seq<SpeechSegment>,
    y: Seq<SpeechSegment>,
    segment: SpeechSegment,
)
    ensures
        uploaded(seq![]) == 0,
        uploaded(seq![output]) == output.1.upload_bytes,
        uploaded(a + b) == uploaded(a) + uploaded(b),
        segment_bytes(seq![]) == 0,
        segment_bytes(seq![segment]) == segment.pcm@.len(),
        segment_bytes(x + y) == segment_bytes(x) + segment_bytes(y),
    decreases b.len(), y.len(),
{
    assert((seq![output]).drop_last() =~= Seq::<(u64, AsrOutput)>::empty());
    assert((seq![segment]).drop_last() =~= Seq::<SpeechSegment>::empty());
    assert(uploaded(seq![]) == 0);
    assert(segment_bytes(seq![]) == 0);
    if b.len() > 0 {
        law_counters_count_every_segment(a, b.drop_last(), output, x, y, segment);
        assert((a + b).drop_last() =~= a + b.drop_last());
    } else {
        assert(a + b =~= a);
        if y.len() > 0 {
            law_counters_count_every_segment(a, b, output, x, y.drop_last(), segment);
            assert((x + y).drop_last() =~= x + y.drop_last());
        } else {
            assert(x + y =~= x);
        }
    }
}

/// The jobs hold the audio of the segments, one each, in order, and their numbers
/// go up one by one.
pub proof fn law_every_segment_becomes_a_job(
    jobs: Seq<AsrJob>,
    segments: Seq<SpeechSegment>,
    first: u64,
)
    requires
        jobs_for(jobs, segments, first),
    ensures
        jobs.len() == segments.len(),
        jobs.len() > 0 ==> jobs[0].seq == first,
        forall|i: int| 0 <= i < jobs.len() ==> #[trigger] jobs[i].pcm@ == segments[i].pcm@,
        forall|i: int|
            0 <= i < jobs.len() - 1 ==> (#[trigger] jobs[i]).seq + 1 == jobs[i + 1].seq,
{
}

/// The usage of one segment is the segment's; that of several adds up from the
/// first to the last.
pub proof fn law_usage_adds_up(outputs: Seq<(u64, AsrOutput)>, output: (u64, AsrOutput))
    ensures
        total_usage(seq![]) is None,
        total_usage(seq![output]) == usage::optional_usage(output.1.usage),
        total_usage(outputs.push(output)) == usage::sum_usage(
            total_usage(outputs),
            usage::optional_usage(output.1.usage),
        ),
        total_usage(outputs) is None <==> forall|i: int|
            0 <= i < outputs.len() ==> (#[trigger] outputs[i]).1.usage is None,
    decreases outputs.len(),
{
    assert((seq![output]).drop_last() =~= Seq::<(u64, AsrOutput)>::empty());
    assert(total_usage(seq![]) is None);
    assert(outputs.push(output).drop_last() =~= outputs);
    if outputs.len() > 0 {
        let earlier = outputs.drop_last();
        law_usage_adds_up(earlier, outputs.last());
        if total_usage(outputs) is None {
            assert forall|i: int| 0 <= i < outputs.len() implies (
            #[trigger] outputs[i]).1.usage is None by {
                if i < earlier.len() {
                    assert(earlier[i] == outputs[i]);
                }
            }
        } else if total_usage(earlier) is Some {
            let i = choose|i: int|
                0 <= i < earlier.len() && (#[trigger] earlier[i]).1.usage is Some;
            assert(outputs[i] == earlier[i]);
        } else {
            assert(outputs[outputs.len() - 1].1.usage is Some);
        }
    }
}

/// The counters in the answer are those of the recognised text, and those of
/// cleanup as they were handed in.
pub proof fn law_the_answer_has_the_counters(
    transcript: Transcript,
    llm_latency_ms: Option<u32>,
    llm_usage: Option<LlmUsage>,
    total_ms: u128,
)
    ensures
        ({
            let stats = transcript.stats(llm_latency_ms, llm_usage, total_ms);
            &&& stats.pcm_received_ms == transcript.pcm_received_ms
            &&& stats.pcm_sent_to_asr_ms == transcript.pcm_sent_to_asr_ms
            &&& stats.vad_segments == transcript.vad_segments
            &&& stats.asr_calls == transcript.asr_calls
            &&& stats.asr_upload_bytes == transcript.asr_upload_bytes
            &&& stats.asr_latency_ms == transcript.asr_latency_ms
            &&& stats.asr_usage == transcript.asr_usage
            &&& stats.llm_latency_ms == llm_latency_ms
            &&& stats.llm_usage == llm_usage
            &&& stats.total_latency_ms == total_ms as int % 0x1_0000_0000
        }),
{
}

/// A count of 32 bits is exact as long as it fits, and starts again where it does
/// not.
pub proof fn law_counts_wrap(n: int)
    ensures
        0 <= n < 0x1_0000_0000 ==> low32(n) == n,
        low32(n + 0x1_0000_0000) == low32(n),
        0 <= low32(n) < 0x1_0000_0000,
{
}

/// The messages of the errors tell them apart, and carry what the provider said.
pub proof fn law_errors_say_what_happened(error: PipelineError)
    ensures
        error is Cancelled ==> error.text() == "cancelled"@,
        error is NoAudio ==> error.text() == "no_audio"@,
        error is Timeout ==> error.text() == "timeout"@,
        error matches PipelineError::AsrFailed(detail) ==> error.text() == "asr_failed:"@ + " "@
            + detail@,
        error matches PipelineError::LlmFailed(detail) ==> error.text() == "llm_failed:"@ + " "@
            + detail@,
{
}

} // verus!
