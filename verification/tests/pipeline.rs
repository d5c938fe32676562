use airtalk::engine::asr::{AsrOutput, ProviderError};
use airtalk::engine::config::CoreConfig;
use airtalk::engine::llm::LlmOutput;
use airtalk::engine::params::SessionParams;
use airtalk::engine::pipeline::{
    asr_request, classify_provider_err, pcm_bytes_to_ms, single_transcript, terminal_response,
    AsrEvent, AsrResults, Cleanup, PipelineError, ProviderStage, SegmentedAudio, Transcript,
    WholeAudio,
};
use airtalk::engine::usage::{merge_asr_usage, sum_opt_u64};
use airtalk::engine::vad::SpeechSegment;
use airtalk::proto::{AsrUsage, AudioSeconds, LlmUsage, Response, SessionStats};

fn config() -> CoreConfig {
    CoreConfig {
        asr_default_language: "auto".into(),
        asr_concurrency: 1,
        hotwords: vec![],
        asr_default_enable_itn: false,
        llm_enabled: true,
        llm_prompt: "prompt".into(),
    }
}

fn params(llm_enabled: bool) -> SessionParams {
    SessionParams {
        language: Some("en".into()),
        context: Some("React".into()),
        enable_itn: true,
        llm_enabled,
    }
}

fn output(text: &str, language: Option<&str>) -> AsrOutput {
    AsrOutput {
        text: text.into(),
        language: language.map(String::from),
        upload_bytes: 10,
        usage: Some(AsrUsage {
            audio_seconds: Some(AudioSeconds::whole(1)),
            input_tokens: None,
            output_tokens: Some(3),
            total_tokens: None,
        }),
    }
}

fn failed(timed_out: bool) -> ProviderError {
    ProviderError { timed_out, message: "boom".into() }
}

fn transcript() -> Transcript {
    single_transcript(16_000, output("hello world", Some("en")), 420)
}

#[test]
fn happy_path_vad_false_with_mocks() {
    let mut audio = WholeAudio::new();
    audio.accept(&[0u8; 10_000]);
    audio.accept(&[0u8; 6_000]);
    let pcm = audio.close().unwrap();
    assert_eq!(pcm.len(), 16_000);

    let params = params(true);
    let request = asr_request(&pcm, &params);
    assert_eq!(request.language, Some("en"));
    assert_eq!(request.context, Some("React"));
    assert!(request.enable_itn);

    let transcript = single_transcript(pcm.len(), output("hello world", Some("en")), 420);
    let call = transcript.cleanup_call(&config(), &params).unwrap();
    assert_eq!(call.text, "hello world");
    assert_eq!(call.prompt, "prompt\n\nContext:\nReact");
    let llm_usage = LlmUsage {
        prompt_tokens: Some(30),
        completion_tokens: Some(10),
        total_tokens: Some(40),
    };
    let cleaned = LlmOutput { text: "Hello, world.".into(), usage: Some(llm_usage) };
    let out = transcript.finish(Cleanup::Done { output: cleaned, elapsed_ms: 180 }, 610).unwrap();

    match terminal_response(1, false, Ok(out)).unwrap() {
        Response::Result { id, text, raw, language, stats } => {
            assert_eq!(id, 1);
            assert_eq!(text, "Hello, world.");
            assert_eq!(raw.as_deref(), Some("hello world"));
            assert_eq!(language.as_deref(), Some("en"));
            assert_eq!(stats.pcm_received_ms, 500);
            assert_eq!(stats.pcm_sent_to_asr_ms, 500);
            assert_eq!(stats.vad_segments, None);
            assert_eq!(stats.asr_calls, 1);
            assert!(stats.asr_upload_bytes > 0);
            let asr_usage = stats.asr_usage.as_ref().expect("asr_usage");
            assert_eq!(asr_usage.audio_seconds, Some(AudioSeconds::whole(1)));
            assert_eq!(asr_usage.output_tokens, Some(3));
            assert_eq!(asr_usage.total_tokens, None);
            let llm_usage = stats.llm_usage.as_ref().expect("llm_usage");
            assert_eq!(llm_usage.prompt_tokens, Some(30));
            assert_eq!(llm_usage.completion_tokens, Some(10));
            assert_eq!(stats.llm_latency_ms, Some(180));
            assert_eq!(stats.asr_latency_ms, 420);
            assert_eq!(stats.total_latency_ms, 610);
        }
        other => panic!("expected Result, got {other:?}"),
    }
}

#[test]
fn asr_500_surfaces_asr_failed_prefix() {
    let error = classify_provider_err(
        ProviderError { timed_out: false, message: "HTTP 500: service boom".into() },
        ProviderStage::Asr,
    );
    match terminal_response(1, false, Err(error)).unwrap() {
        Response::Error { id, message } => {
            assert_eq!(id, 1);
            assert!(message.starts_with("asr_failed:"));
            assert_eq!(message, "asr_failed: HTTP 500: service boom");
        }
        other => panic!("expected Error, got {other:?}"),
    }
}

#[test]
fn asr_timeout_surfaces_timeout_code() {
    let error = classify_provider_err(failed(true), ProviderStage::Asr);
    match terminal_response(1, false, Err(error)).unwrap() {
        Response::Error { id, message } => assert_eq!((id, message.as_str()), (1, "timeout")),
        other => panic!("expected Error, got {other:?}"),
    }
}

#[test]
fn each_failure_has_its_message() {
    assert_eq!(PipelineError::Cancelled.message(), "cancelled");
    assert_eq!(PipelineError::NoAudio.message(), "no_audio");
    assert_eq!(
        classify_provider_err(failed(false), ProviderStage::Llm).message(),
        "llm_failed: boom"
    );
    assert_eq!(classify_provider_err(failed(true), ProviderStage::Llm).message(), "timeout");
}

#[test]
fn cancelled_runs_send_nothing() {
    assert!(terminal_response(1, false, Err(PipelineError::Cancelled)).is_none());
    assert!(terminal_response(1, true, Err(PipelineError::NoAudio)).is_none());
    let out = transcript().finish(Cleanup::Skipped, 0).unwrap();
    assert!(terminal_response(1, true, Ok(out)).is_none());
}

#[test]
fn audio_without_bytes_is_no_audio() {
    let mut audio = WholeAudio::new();
    audio.accept(&[]);
    assert!(matches!(audio.close(), Err(PipelineError::NoAudio)));
}

#[test]
fn skipped_cleanup_keeps_the_text() {
    assert!(transcript().cleanup_call(&config(), &params(false)).is_none());
    let out = transcript().finish(Cleanup::Skipped, 7).unwrap();
    assert_eq!((out.text.as_str(), out.raw.as_str()), ("hello world", "hello world"));
    assert_eq!(out.stats.llm_latency_ms, None);
    assert_eq!(out.stats.llm_usage, None);
}

#[test]
fn failed_cleanup_ends_the_run() {
    let run = |timed_out| transcript().finish(Cleanup::Failed { error: failed(timed_out) }, 7);
    assert!(matches!(run(false), Err(PipelineError::LlmFailed(m)) if m == "boom"));
    assert!(matches!(run(true), Err(PipelineError::Timeout)));
}

fn segment(bytes: usize) -> SpeechSegment {
    SpeechSegment { pcm: vec![1; bytes] }
}

#[test]
fn segments_are_numbered_and_counted() {
    let mut audio = SegmentedAudio::new();
    assert!(audio.accept(640, vec![]).is_empty());
    let jobs = audio.accept(3_200, vec![segment(320), segment(640)]);
    assert_eq!(jobs.iter().map(|j| j.seq).collect::<Vec<_>>(), vec![0, 1]);
    assert_eq!(jobs[1].pcm.len(), 640);
    assert_eq!(audio.close(Some(segment(32))).unwrap().seq, 2);
    assert!(audio.close(None).is_none());
    assert_eq!((audio.received, audio.sent, audio.next_seq), (3_840, 992, 3));
}

fn collected(order: &[u64]) -> Transcript {
    let mut results = AsrResults::new();
    for seq in order {
        let language = if *seq == 0 { None } else { Some(["", "en", "zh"][*seq as usize]) };
        let output = output(["one", "two", "three"][*seq as usize], language);
        let elapsed_ms = 100 + 10 * *seq as u128;
        results.collect(AsrEvent::Done { seq: *seq, output, elapsed_ms }).unwrap();
    }
    let audio = SegmentedAudio { received: 64_000, sent: 32_000, next_seq: 3 };
    results.into_transcript(&audio).unwrap()
}

#[test]
fn segments_come_out_in_spoken_order() {
    for order in [[0, 1, 2], [2, 1, 0], [1, 2, 0]] {
        let t = collected(&order);
        assert_eq!(t.raw, "one two three");
        assert_eq!(t.language.as_deref(), Some("en"));
        assert_eq!(t.asr_latency_ms, 120);
        assert_eq!(t.asr_upload_bytes, 30);
        assert_eq!((t.asr_calls, t.vad_segments), (3, Some(3)));
        assert_eq!((t.pcm_received_ms, t.pcm_sent_to_asr_ms), (2_000, 1_000));
        let usage = t.asr_usage.unwrap();
        assert_eq!((usage.output_tokens, usage.input_tokens), (Some(9), None));
    }
}

#[test]
fn failed_segments_end_the_run() {
    let mut results = AsrResults::new();
    let failure = |results: &mut AsrResults, timed_out| {
        let error = ProviderError { timed_out, message: "HTTP 500: service boom".into() };
        results.collect(AsrEvent::Failed { seq: 4, error }).unwrap_err()
    };
    assert_eq!(failure(&mut results, false).message(), "asr_failed: seq 4: HTTP 500: service boom");
    assert_eq!(failure(&mut results, true).message(), "timeout");
    let crash = results.collect(AsrEvent::Crashed { what: "panic".into() }).unwrap_err();
    assert_eq!(crash.message(), "asr_failed: join error: panic");
    assert!(matches!(
        results.into_transcript(&SegmentedAudio::new()),
        Err(PipelineError::NoAudio)
    ));
}

#[test]
fn milliseconds_of_audio() {
    assert_eq!(pcm_bytes_to_ms(0), 0);
    assert_eq!(pcm_bytes_to_ms(31), 0);
    assert_eq!(pcm_bytes_to_ms(32_000), 1_000);
}

#[test]
fn usage_sums_what_is_there() {
    assert_eq!(sum_opt_u64(None, None), None);
    assert_eq!(sum_opt_u64(Some(2), None), Some(2));
    assert_eq!(sum_opt_u64(Some(2), Some(3)), Some(5));
    let mut a = AsrUsage::default();
    a.input_tokens = Some(1);
    let mut b = AsrUsage::default();
    b.input_tokens = Some(2);
    b.total_tokens = Some(9);
    let sum = merge_asr_usage(Some(a.clone()), Some(b)).unwrap();
    assert_eq!((sum.input_tokens, sum.total_tokens), (Some(3), Some(9)));
    assert_eq!(merge_asr_usage(None, Some(a.clone())), Some(a));
    assert_eq!(merge_asr_usage(None, None), None);
}

#[test]
fn latencies_wrap_at_32_bits() {
    let out = transcript().finish(Cleanup::Skipped, 0x1_0000_0005).unwrap();
    assert_eq!(out.stats.total_latency_ms, 5);
    assert_ne!(out.stats, SessionStats::default());
}
