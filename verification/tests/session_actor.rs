use airtalk::engine::config::CoreConfig;
use airtalk::engine::asr::AsrOutput;
use airtalk::engine::llm::LlmOutput;
use airtalk::engine::pipeline::{single_transcript, terminal_response, Cleanup, WholeAudio};
use airtalk::engine::session::{Actor, ActorAction, ActorCmd};
use airtalk::proto::{Request, Response, PROTOCOL_VERSION};
use airtalk::ui::core_client::{check_ready, version_mismatch, HandshakeError};

fn config() -> CoreConfig {
    CoreConfig {
        asr_default_language: "auto".into(),
        asr_concurrency: 1,
        hotwords: vec![],
        asr_default_enable_itn: false,
        llm_enabled: false,
        llm_prompt: String::new(),
    }
}

fn begin(id: u64, vad: bool) -> Request {
    Request::Begin {
        id,
        vad,
        context: None,
        language: None,
        enable_itn: None,
        enable_llm: None,
    }
}

fn chunk(id: u64, bytes: usize) -> Request {
    Request::Chunk { id, pcm: vec![0u8; bytes] }
}

/// An engine: the actor, the audio of its pipeline, and what was sent.
struct Engine {
    actor: Actor,
    audio: Option<(u64, WholeAudio)>,
    sent: Vec<Response>,
    exited: bool,
}

impl Engine {
    fn new() -> Self {
        Engine { actor: Actor::new(), audio: None, sent: vec![], exited: false }
    }

    fn step(&mut self, cmd: ActorCmd) {
        for action in self.actor.step(&config(), cmd) {
            match action {
                ActorAction::CancelPipeline { id } => {
                    assert_eq!(self.audio.take().unwrap().0, id);
                }
                ActorAction::Respond(r) => self.sent.push(r),
                ActorAction::StartPipeline { id, .. } => {
                    assert!(self.audio.is_none());
                    self.audio = Some((id, WholeAudio::new()));
                }
                ActorAction::ForwardAudio { id, pcm } => {
                    let (own, audio) = self.audio.as_mut().unwrap();
                    assert_eq!(*own, id);
                    audio.accept(&pcm);
                }
                ActorAction::CloseAudio { id } => {
                    assert_eq!(self.audio.as_ref().unwrap().0, id);
                }
                ActorAction::Exit => self.exited = true,
            }
        }
    }

    fn send(&mut self, request: Request) {
        self.step(ActorCmd::Req(request));
    }

    /// Lets the pipeline come to its end: any audio is recognised as a text,
    /// which is then cleaned up. Returns the news of it.
    fn end_pipeline(&mut self) -> ActorCmd {
        let (id, audio) = self.audio.take().unwrap();
        let outcome = audio.close().and_then(|pcm| {
            let output = AsrOutput {
                text: "text".into(),
                language: Some("en".into()),
                upload_bytes: 10,
                usage: None,
            };
            let output_llm = LlmOutput { text: "Text.".into(), usage: None };
            let cleanup = Cleanup::Done { output: output_llm, elapsed_ms: 5 };
            single_transcript(pcm.len(), output, 7).finish(cleanup, 20)
        });
        ActorCmd::PipelineDone { id, response: terminal_response(id, false, outcome) }
    }

    fn finish(&mut self) {
        let news = self.end_pipeline();
        self.step(news);
    }

    fn errors(&self) -> Vec<(u64, String)> {
        self.sent
            .iter()
            .map(|r| match r {
                Response::Error { id, message } => (*id, message.clone()),
                other => panic!("expected Error, got {other:?}"),
            })
            .collect()
    }
}

#[test]
fn ready_handshake_and_clean_exit() {
    assert!(check_ready(Response::Ready { protocol_version: PROTOCOL_VERSION }).is_ok());
    assert_eq!(PROTOCOL_VERSION, 3);
    let mut core = Engine::new();
    core.step(ActorCmd::Shutdown);
    assert!(core.exited && core.sent.is_empty());
}

#[test]
fn handshake_refuses_other_versions() {
    let err = check_ready(Response::Ready { protocol_version: 2 }).unwrap_err();
    assert!(matches!(err, HandshakeError::VersionMismatch { core: 2 }));
    assert!(version_mismatch(2).contains('2') && version_mismatch(2).contains('3'));
    let first = Response::Error { id: 0, message: "x".into() };
    assert!(matches!(check_ready(first), Err(HandshakeError::NotReady(_))));
}

#[test]
fn no_audio_without_chunks() {
    let mut core = Engine::new();
    core.send(begin(1, false));
    core.send(Request::End { id: 1 });
    core.finish();
    assert_eq!(core.errors(), vec![(1, "no_audio".to_string())]);
    core.step(ActorCmd::Shutdown);
    assert!(core.exited);
}

#[test]
fn supersede_emits_error_then_new_result() {
    let mut core = Engine::new();
    core.send(begin(1, false));
    core.send(begin(2, false));
    assert_eq!(core.errors(), vec![(1, "superseded".to_string())]);
    core.send(chunk(2, 16_000));
    core.send(Request::End { id: 2 });
    core.finish();
    assert_eq!(core.sent.len(), 2);
    match &core.sent[1] {
        Response::Result { id, stats, .. } => {
            assert_eq!(*id, 2);
            assert_eq!(stats.asr_calls, 1);
        }
        other => panic!("expected Result for id=2, got {other:?}"),
    }
}

#[test]
fn cancel_returns_cancelled() {
    let mut core = Engine::new();
    core.send(begin(1, false));
    core.send(Request::Cancel { id: 1 });
    assert_eq!(core.errors(), vec![(1, "cancelled".to_string())]);
    // The pipeline reports its end late; that is no news.
    core.step(ActorCmd::PipelineDone { id: 1, response: None });
    core.send(Request::Cancel { id: 1 });
    assert_eq!(core.sent.len(), 1);
}

#[test]
fn stale_chunk_for_wrong_id_is_dropped() {
    let mut core = Engine::new();
    core.send(begin(1, false));
    core.send(chunk(99, 16_000));
    core.send(Request::End { id: 1 });
    core.finish();
    assert_eq!(core.errors(), vec![(1, "no_audio".to_string())]);
}

#[test]
fn graceful_shutdown_delivers_inflight_result() {
    let mut core = Engine::new();
    core.send(begin(1, false));
    core.send(chunk(1, 16_000));
    core.send(Request::End { id: 1 });
    core.step(ActorCmd::Shutdown);
    assert!(!core.exited);
    core.finish();
    match &core.sent[..] {
        [Response::Result { id, text, .. }] => {
            assert_eq!(*id, 1);
            assert_eq!(text, "Text.");
        }
        other => panic!("expected Result after graceful shutdown, got {other:?}"),
    }
    assert!(core.exited);
}

/// The request is taken after the pipeline has ended and before the news of it.
fn overtaken_by(request: Request) -> Engine {
    let mut core = Engine::new();
    core.send(begin(1, false));
    core.send(chunk(1, 16_000));
    core.send(Request::End { id: 1 });
    let (id, audio) = core.audio.clone().unwrap();
    let news = core.end_pipeline();
    assert!(matches!(
        &news,
        ActorCmd::PipelineDone { id: 1, response: Some(Response::Result { id: 1, .. }) }
    ));
    core.audio = Some((id, audio));
    core.send(request);
    core.step(news);
    core
}

#[test]
fn overtaken_news_is_no_second_answer() {
    let core = overtaken_by(begin(2, false));
    assert_eq!(core.errors(), vec![(1, "superseded".to_string())]);
    let core = overtaken_by(Request::Cancel { id: 1 });
    assert_eq!(core.errors(), vec![(1, "cancelled".to_string())]);
}

#[test]
fn shutdown_closes_the_audio_and_refuses_sessions() {
    let mut core = Engine::new();
    core.send(begin(1, true));
    core.step(ActorCmd::Shutdown);
    core.send(chunk(1, 16_000));
    core.send(begin(2, false));
    assert_eq!(core.errors(), vec![(2, "shutting_down".to_string())]);
    core.finish();
    assert_eq!(core.errors()[1], (1, "no_audio".to_string()));
    assert!(core.exited);
}

#[test]
fn chunks_after_the_end_are_dropped() {
    let mut core = Engine::new();
    core.send(begin(1, false));
    core.send(Request::End { id: 1 });
    core.send(chunk(1, 16_000));
    core.finish();
    assert_eq!(core.errors(), vec![(1, "no_audio".to_string())]);
}
