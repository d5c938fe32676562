//! The session actor: at most one session is open at a time.
//!
//! The actor takes requests and the news that a pipeline has ended, one after
//! the other, and says what is to be done. It cancels pipelines but does not
//! wait for them. Pipelines do not respond by themselves: the news carries the
//! response, and the actor sends it only if the session is still open.

use crate::engine::config::CoreConfig;
use crate::engine::params::{self, ParamsView, SessionParams};
use crate::proto::{error_code, Request, Response};
use vstd::prelude::*;

verus! {

/// What the actor is told.
#[derive(Debug, Clone)]
pub enum ActorCmd {
    /// A request came in.
    Req(Request),
    /// The pipeline of session `id` has ended. Unless it was cancelled it
    /// leaves the session's terminal response.
    PipelineDone { id: u64, response: Option<Response> },
    /// No more requests will come.
    Shutdown,
}

/// What is to be done.
#[derive(Debug)]
pub enum ActorAction {
    /// Cancel the pipeline of session `id`.
    CancelPipeline { id: u64 },
    /// Send a response.
    Respond(Response),
    /// Start a pipeline.
    StartPipeline { id: u64, vad: bool, params: SessionParams },
    /// Hand audio to the pipeline of session `id`.
    ForwardAudio { id: u64, pcm: Vec<u8> },
    /// Tell the pipeline of session `id` that its audio is complete.
    CloseAudio { id: u64 },
    /// Stop: nothing is left to do.
    Exit,
}

/// The open session. Audio is taken until its end was announced.
#[derive(Debug, Clone, Copy, PartialEq, Eq, Structural)]
pub struct ActiveSession {
    pub id: u64,
    pub audio_open: bool,
}

#[derive(Debug, Clone, Copy)]
pub struct Actor {
    pub current: Option<ActiveSession>,
    pub shutting_down: bool,
}

/// The error message for a session that is opened during shutdown.
pub const SHUTTING_DOWN: &'static str = "shutting_down";

// ─── Model ─────────────────────────────────────────────────────────────

/// An action, with its texts as characters.
pub enum Effect {
    Cancel(u64),
    Error(u64, Seq<char>),
    Answer(Response),
    Start(u64, bool, ParamsView),
    Audio(u64, Seq<u8>),
    Close(u64),
    Exit,
}

/// Sending a response.
pub open spec fn sent(response: Response) -> Effect {
    match response {
        Response::Error { id, message } => Effect::Error(id, message@),
        _ => Effect::Answer(response),
    }
}

impl View for ActorAction {
    type V = Effect;

    open spec fn view(&self) -> Effect {
        match *self {
            ActorAction::CancelPipeline { id } => Effect::Cancel(id),
            ActorAction::Respond(response) => sent(response),
            ActorAction::StartPipeline { id, vad, params } => Effect::Start(id, vad, params@),
            ActorAction::ForwardAudio { id, pcm } => Effect::Audio(id, pcm@),
            ActorAction::CloseAudio { id } => Effect::Close(id),
            ActorAction::Exit => Effect::Exit,
        }
    }
}

/// The actions in order.
pub open spec fn effects_of(actions: Seq<ActorAction>) -> Seq<Effect> {
    actions.map_values(|a: ActorAction| a@)
}

impl Actor {
    /// Whether session `id` is the open one.
    pub open spec fn is_current(self, id: u64) -> bool {
        self.current matches Some(s) && s.id == id
    }

    /// Whether the actor has nothing left to do.
    pub open spec fn finished(self) -> bool {
        self.shutting_down && self.current is None
    }

    /// The actor after a command.
    pub open spec fn after(self, cmd: ActorCmd) -> Actor {
        match cmd {
            ActorCmd::Req(Request::Begin { id, .. }) => if self.shutting_down {
                self
            } else {
                Actor { current: Some(ActiveSession { id, audio_open: true }), ..self }
            },
            ActorCmd::Req(Request::Chunk { .. }) => self,
            ActorCmd::Req(Request::End { id }) => if self.is_current(id) {
                Actor { current: Some(ActiveSession { id, audio_open: false }), ..self }
            } else {
                self
            },
            ActorCmd::Req(Request::Cancel { id }) => if self.is_current(id) {
                Actor { current: None, ..self }
            } else {
                self
            },
            ActorCmd::PipelineDone { id, .. } => if self.is_current(id) {
                Actor { current: None, ..self }
            } else {
                self
            },
            ActorCmd::Shutdown => Actor {
                current: match self.current {
                    Some(s) => Some(ActiveSession { id: s.id, audio_open: false }),
                    None => None,
                },
                shutting_down: true,
            },
        }
    }

    /// What a command makes the actor do, but for stopping.
    pub open spec fn reaction(self, config: CoreConfig, cmd: ActorCmd) -> Seq<Effect> {
        match cmd {
            ActorCmd::Req(
                Request::Begin { id, vad, context, language, enable_itn, enable_llm },
            ) => if self.shutting_down {
                seq![Effect::Error(id, SHUTTING_DOWN@)]
            } else {
                let superseded = match self.current {
                    Some(s) => seq![
                        Effect::Cancel(s.id),
                        Effect::Error(s.id, error_code::SUPERSEDED@),
                    ],
                    None => seq![],
                };
                let params = params::resolved_params(
                    config,
                    params::optional_text(context),
                    params::optional_text(language),
                    enable_itn,
                    enable_llm,
                );
                superseded.push(Effect::Start(id, vad, params))
            },
            ActorCmd::Req(Request::Chunk { id, pcm }) => if self.current == Some(
                ActiveSession { id, audio_open: true },
            ) {
                seq![Effect::Audio(id, pcm@)]
            } else {
                seq![]
            },
            ActorCmd::Req(Request::End { id }) => if self.is_current(id) {
                seq![Effect::Close(id)]
            } else {
                seq![]
            },
            ActorCmd::Req(Request::Cancel { id }) => if self.is_current(id) {
                seq![Effect::Cancel(id), Effect::Error(id, error_code::CANCELLED@)]
            } else {
                seq![]
            },
            ActorCmd::PipelineDone { id, response } => match response {
                Some(answer) => if self.is_current(id) {
                    seq![sent(answer)]
                } else {
                    seq![]
                },
                None => seq![],
            },
            ActorCmd::Shutdown => match self.current {
                Some(s) => seq![Effect::Close(s.id)],
                None => seq![],
            },
        }
    }

    /// Everything a command makes the actor do. It stops once shutdown was
    /// asked for and no session is open.
    pub open spec fn effects(self, config: CoreConfig, cmd: ActorCmd) -> Seq<Effect> {
        if self.after(cmd).finished() {
            self.reaction(config, cmd).push(Effect::Exit)
        } else {
            self.reaction(config, cmd)
        }
    }
}

// ─── The actor ─────────────────────────────────────────────────────────

fn error_response(id: u64, message: &str) -> (r: ActorAction)
    ensures
        r@ == Effect::Error(id, message@),
{
    ActorAction::Respond(Response::Error { id, message: message.to_owned() })
}

impl Actor {
    pub fn new() -> (r: Self)
        ensures
            r == (Actor { current: None, shutting_down: false }),
    {
        Actor { current: None, shutting_down: false }
    }

    /// Takes one command.
    pub fn step(&mut self, config: &CoreConfig, cmd: ActorCmd) -> (r: Vec<ActorAction>)
        ensures
            *final(self) == old(self).after(cmd),
            effects_of(r@) == old(self).effects(*config, cmd),
    {
        let ghost before = *self;
        let mut actions = self.react(config, cmd);
        if self.shutting_down && self.current.is_none() {
            actions.push(ActorAction::Exit);
            assert(effects_of(actions@) =~= before.reaction(*config, cmd).push(Effect::Exit));
        }
        actions
    }

    fn react(&mut self, config: &CoreConfig, cmd: ActorCmd) -> (r: Vec<ActorAction>)
        ensures
            *final(self) == old(self).after(cmd),
            effects_of(r@) == old(self).reaction(*config, cmd),
    {
        let mut actions: Vec<ActorAction> = Vec::new();
        match cmd {
            ActorCmd::Req(
                Request::Begin { id, vad, context, language, enable_itn, enable_llm },
            ) => {
                if self.shutting_down {
                    actions.push(error_response(id, SHUTTING_DOWN));
                } else {
                    if let Some(old_session) = self.current {
                        actions.push(ActorAction::CancelPipeline { id: old_session.id });
                        actions.push(error_response(old_session.id, error_code::SUPERSEDED));
                    }
                    let params = SessionParams::resolve(
                        config,
                        context,
                        language,
                        enable_itn,
                        enable_llm,
                    );
                    actions.push(ActorAction::StartPipeline { id, vad, params });
                    self.current = Some(ActiveSession { id, audio_open: true });
                }
            },
            ActorCmd::Req(Request::Chunk { id, pcm }) => {
                if let Some(s) = self.current {
                    if s.id == id && s.audio_open {
                        actions.push(ActorAction::ForwardAudio { id, pcm });
                    }
                }
            },
            ActorCmd::Req(Request::End { id }) => {
                if let Some(s) = self.current {
                    if s.id == id {
                        self.current = Some(ActiveSession { id, audio_open: false });
                        actions.push(ActorAction::CloseAudio { id });
                    }
                }
            },
            ActorCmd::Req(Request::Cancel { id }) => {
                if let Some(s) = self.current {
                    if s.id == id {
                        self.current = None;
                        actions.push(ActorAction::CancelPipeline { id });
                        actions.push(error_response(id, error_code::CANCELLED));
                    }
                }
            },
            ActorCmd::PipelineDone { id, response } => {
                if let Some(s) = self.current {
                    if s.id == id {
                        self.current = None;
                        if let Some(answer) = response {
                            actions.push(ActorAction::Respond(answer));
                        }
                    }
                }
            },
            ActorCmd::Shutdown => {
                self.shutting_down = true;
                if let Some(s) = self.current {
                    self.current = Some(ActiveSession { id: s.id, audio_open: false });
                    actions.push(ActorAction::CloseAudio { id: s.id });
                }
            },
        }
        assert(effects_of(actions@) =~= old(self).reaction(*config, cmd));
        actions
    }
}

// ─── Laws ──────────────────────────────────────────────────────────────

/// The actor after everything that it was told.
pub open spec fn actor_after(trace: Seq<ActorCmd>) -> Actor
    decreases trace.len(),
{
    if trace.len() == 0 {
        Actor { current: None, shutting_down: false }
    } else {
        actor_after(trace.drop_last()).after(trace.last())
    }
}

/// What the last command made the actor do.
pub open spec fn last_reaction(config: CoreConfig, trace: Seq<ActorCmd>) -> Seq<Effect> {
    actor_after(trace.drop_last()).reaction(config, trace.last())
}

/// How often session `id` was opened.
pub open spec fn times_begun(trace: Seq<ActorCmd>, id: u64) -> nat
    decreases trace.len(),
{
    if trace.len() == 0 {
        0
    } else {
        times_begun(trace.drop_last(), id) + match trace.last() {
            ActorCmd::Req(Request::Begin { id: opened, .. }) => if opened == id {
                1nat
            } else {
                0
            },
            _ => 0,
        }
    }
}

/// How often the actor took the news that the pipeline of session `id` ended.
pub open spec fn times_ended(trace: Seq<ActorCmd>, id: u64) -> nat
    decreases trace.len(),
{
    if trace.len() == 0 {
        0
    } else {
        times_ended(trace.drop_last(), id) + match trace.last() {
            ActorCmd::PipelineDone { id: ended, .. } => if ended == id {
                1nat
            } else {
                0
            },
            _ => 0,
        }
    }
}

/// Whether a pipeline was started for session `id`.
pub open spec fn was_started(config: CoreConfig, trace: Seq<ActorCmd>, id: u64) -> bool
    decreases trace.len(),
{
    trace.len() > 0 && (was_started(config, trace.drop_last(), id) || starts(
        last_reaction(config, trace),
        id,
    ))
}

/// Whether a pipeline of session `id` was cancelled.
pub open spec fn was_cancelled(config: CoreConfig, trace: Seq<ActorCmd>, id: u64) -> bool
    decreases trace.len(),
{
    trace.len() > 0 && (was_cancelled(config, trace.drop_last(), id) || last_reaction(
        config,
        trace,
    ).contains(Effect::Cancel(id)))
}

/// Whether the effects start a pipeline for session `id`.
pub open spec fn starts(effects: Seq<Effect>, id: u64) -> bool {
    exists|i: int|
        0 <= i < effects.len() && (#[trigger] effects[i] matches Effect::Start(started, _, _)
            && started == id)
}

/// Whether an effect sends a terminal response for session `id`.
pub open spec fn answers(effect: Effect, id: u64) -> bool {
    match effect {
        Effect::Error(to, _) => to == id,
        Effect::Answer(response) => response.ends(id),
        _ => false,
    }
}

/// How many of the effects send a terminal response for session `id`.
pub open spec fn answers_for(effects: Seq<Effect>, id: u64) -> nat
    decreases effects.len(),
{
    if effects.len() == 0 {
        0
    } else {
        answers_for(effects.drop_last(), id) + if answers(effects.last(), id) {
            1nat
        } else {
            0
        }
    }
}

/// How many terminal responses were sent for session `id`.
pub open spec fn times_answered(config: CoreConfig, trace: Seq<ActorCmd>, id: u64) -> nat
    decreases trace.len(),
{
    if trace.len() == 0 {
        0
    } else {
        times_answered(config, trace.drop_last(), id) + answers_for(
            last_reaction(config, trace),
            id,
        )
    }
}

/// Whether the commands can come in this order: no session number is used
/// twice, nothing comes once the actor has stopped, and the news of a pipeline
/// comes once, at any time after its start. A pipeline that was not cancelled
/// leaves a terminal response of its session.
pub open spec fn possible(config: CoreConfig, trace: Seq<ActorCmd>) -> bool
    decreases trace.len(),
{
    trace.len() > 0 ==> {
        let earlier = trace.drop_last();
        &&& possible(config, earlier)
        &&& !actor_after(earlier).finished()
        &&& match trace.last() {
            ActorCmd::Req(Request::Begin { id, .. }) => times_begun(earlier, id) == 0,
            ActorCmd::PipelineDone { id, response } => {
                &&& was_started(config, earlier, id)
                &&& times_ended(earlier, id) == 0
                &&& was_cancelled(config, earlier, id) || (response matches Some(answer)
                    && answer.ends(id))
            },
            _ => true,
        }
    }
}

/// Exactly one terminal response answers each opened session, whenever the news
/// of its pipeline comes: none while the session is open, one from then on.
/// None is sent for a session that was never opened. A session whose pipeline
/// has ended is answered, and when the actor stops, all of them are.
pub proof fn law_one_terminal_response(config: CoreConfig, trace: Seq<ActorCmd>, id: u64)
    requires
        possible(config, trace),
    ensures
        times_answered(config, trace, id) == (if times_begun(trace, id) > 0 && !actor_after(
            trace,
        ).is_current(id) {
            1nat
        } else {
            0nat
        }),
        times_ended(trace, id) > 0 ==> times_answered(config, trace, id) == 1,
        actor_after(trace).finished() && times_begun(trace, id) > 0 ==> times_answered(
            config,
            trace,
            id,
        ) == 1,
{
    lemma_bookkeeping(config, trace, id);
}

proof fn lemma_bookkeeping(config: CoreConfig, trace: Seq<ActorCmd>, id: u64)
    requires
        possible(config, trace),
    ensures
        times_begun(trace, id) <= 1,
        times_answered(config, trace, id) == (if times_begun(trace, id) == 1 && !actor_after(
            trace,
        ).is_current(id) {
            1nat
        } else {
            0nat
        }),
        was_started(config, trace, id) ==> times_begun(trace, id) == 1,
        times_ended(trace, id) > 0 ==> was_started(config, trace, id),
        was_cancelled(config, trace, id) ==> times_begun(trace, id) == 1,
        actor_after(trace).is_current(id) <==> was_started(config, trace, id) && !was_cancelled(
            config,
            trace,
            id,
        ) && times_ended(trace, id) == 0,
    decreases trace.len(),
{
    if trace.len() > 0 {
        let earlier = trace.drop_last();
        lemma_bookkeeping(config, earlier, id);
        let actor = actor_after(earlier);
        if let Some(s) = actor.current {
            lemma_bookkeeping(config, earlier, s.id);
        }
        lemma_reaction(actor, config, trace.last(), id);
    }
}

/// What the reaction to one command holds of session `id`.
proof fn lemma_reaction(actor: Actor, config: CoreConfig, cmd: ActorCmd, id: u64)
    ensures
        ({
            let effects = actor.reaction(config, cmd);
            let opens = cmd matches ActorCmd::Req(Request::Begin { id: opened, .. }) && opened
                == id;
            let supersedes = (cmd matches ActorCmd::Req(Request::Begin { .. }))
                && !actor.shutting_down && actor.is_current(id);
            let cancels = (cmd matches ActorCmd::Req(Request::Cancel { id: c }) && c == id)
                && actor.is_current(id);
            let delivers = cmd matches ActorCmd::PipelineDone { id: ended, response: Some(answer) }
                && actor.is_current(ended) && answer.ends(id);
            &&& starts(effects, id) <==> opens && !actor.shutting_down
            &&& effects.contains(Effect::Cancel(id)) <==> supersedes || cancels
            &&& answers_for(effects, id) == (if supersedes || cancels || delivers {
                1nat
            } else {
                0
            }) + (if opens && actor.shutting_down {
                1nat
            } else {
                0
            })
        }),
{
    reveal_with_fuel(answers_for, 4);
    let effects = actor.reaction(config, cmd);
    match cmd {
        ActorCmd::Req(Request::Begin { .. }) => {
            if actor.shutting_down {
                assert(effects.drop_last() =~= Seq::<Effect>::empty());
                assert(effects[0] is Error);
            } else {
                let k = effects.len() - 1;
                assert(effects[k] is Start);
                if let Some(s) = actor.current {
                    assert(effects[0] == Effect::Cancel(s.id));
                    assert(effects[1] is Error);
                    assert(effects.drop_last().drop_last().drop_last()
                        =~= Seq::<Effect>::empty());
                } else {
                    assert(effects.drop_last() =~= Seq::<Effect>::empty());
                }
            }
        },
        ActorCmd::Req(Request::Cancel { .. }) => {
            if effects.len() > 0 {
                assert(effects[0] is Cancel);
                assert(effects.drop_last().drop_last() =~= Seq::<Effect>::empty());
            }
        },
        _ => {
            if effects.len() > 0 {
                assert(effects.drop_last() =~= Seq::<Effect>::empty());
            }
        },
    }
}

/// Whether session `id` takes audio after these commands: it was opened before
/// shutdown was asked for, and since then neither ended, nor cancelled, nor
/// superseded, nor has its pipeline ended.
pub open spec fn takes_audio(trace: Seq<ActorCmd>, id: u64) -> bool
    decreases trace.len(),
{
    if trace.len() == 0 {
        false
    } else {
        let earlier = takes_audio(trace.drop_last(), id);
        match trace.last() {
            ActorCmd::Shutdown => false,
            ActorCmd::PipelineDone { id: ended, .. } => earlier && ended != id,
            ActorCmd::Req(Request::Begin { id: opened, .. }) => if asked_to_stop(
                trace.drop_last(),
            ) {
                earlier
            } else {
                opened == id
            },
            ActorCmd::Req(Request::End { id: ended }) => earlier && ended != id,
            ActorCmd::Req(Request::Cancel { id: cancelled }) => earlier && cancelled != id,
            ActorCmd::Req(Request::Chunk { .. }) => earlier,
        }
    }
}

/// Whether shutdown was asked for.
pub open spec fn asked_to_stop(trace: Seq<ActorCmd>) -> bool {
    exists|i: int| 0 <= i < trace.len() && #[trigger] trace[i] is Shutdown
}

/// The audio of session `id` that came while it took audio.
pub open spec fn audio_received(trace: Seq<ActorCmd>, id: u64) -> Seq<u8>
    decreases trace.len(),
{
    if trace.len() == 0 {
        seq![]
    } else {
        let earlier = audio_received(trace.drop_last(), id);
        match trace.last() {
            ActorCmd::Req(Request::Chunk { id: to, pcm }) => if to == id && takes_audio(
                trace.drop_last(),
                id,
            ) {
                earlier + pcm@
            } else {
                earlier
            },
            _ => earlier,
        }
    }
}

/// The audio that the effects hand to the pipeline of session `id`.
pub open spec fn audio_in(effects: Seq<Effect>, id: u64) -> Seq<u8>
    decreases effects.len(),
{
    if effects.len() == 0 {
        seq![]
    } else {
        let earlier = audio_in(effects.drop_last(), id);
        match effects.last() {
            Effect::Audio(to, bytes) => if to == id {
                earlier + bytes
            } else {
                earlier
            },
            _ => earlier,
        }
    }
}

/// The audio that was handed to the pipeline of session `id`.
pub open spec fn audio_forwarded(config: CoreConfig, trace: Seq<ActorCmd>, id: u64) -> Seq<u8>
    decreases trace.len(),
{
    if trace.len() == 0 {
        seq![]
    } else {
        audio_forwarded(config, trace.drop_last(), id) + audio_in(last_reaction(config, trace), id)
    }
}

/// Audio reaches the pipeline whole and in order: what was handed to the
/// pipeline of a session is what came for it while it took audio, and nothing
/// else.
pub proof fn law_audio_is_forwarded_whole(config: CoreConfig, trace: Seq<ActorCmd>, id: u64)
    ensures
        audio_forwarded(config, trace, id) == audio_received(trace, id),
        takes_audio(trace, id) <==> actor_after(trace).current == Some(
            ActiveSession { id, audio_open: true },
        ),
        asked_to_stop(trace) <==> actor_after(trace).shutting_down,
    decreases trace.len(),
{
    if trace.len() > 0 {
        let earlier = trace.drop_last();
        law_audio_is_forwarded_whole(config, earlier, id);
        lemma_asked_to_stop(trace);
        let actor = actor_after(earlier);
        let effects = actor.reaction(config, trace.last());
        reveal_with_fuel(audio_in, 4);
        match trace.last() {
            ActorCmd::Req(Request::Begin { .. }) => {
                if actor.shutting_down || actor.current is None {
                    assert(effects.drop_last() =~= Seq::<Effect>::empty());
                } else {
                    assert(effects.drop_last().drop_last().drop_last() =~= Seq::<Effect>::empty());
                    assert(effects.drop_last().last() == effects[1]);
                    assert(effects.drop_last().drop_last().last() == effects[0]);
                }
            },
            ActorCmd::Req(Request::Chunk { id: to, pcm }) => {
                if effects.len() > 0 {
                    assert(effects.drop_last() =~= Seq::<Effect>::empty());
                    assert(Seq::<u8>::empty() + pcm@ =~= pcm@);
                }
            },
            ActorCmd::Req(Request::Cancel { .. }) => {
                if effects.len() > 0 {
                    assert(effects.drop_last().drop_last() =~= Seq::<Effect>::empty());
                    assert(effects.drop_last().last() == effects[0]);
                }
            },
            _ => {
                if effects.len() > 0 {
                    assert(effects.drop_last() =~= Seq::<Effect>::empty());
                }
            },
        }
        assert(audio_forwarded(config, earlier, id) + Seq::<u8>::empty() =~= audio_forwarded(
            config,
            earlier,
            id,
        ));
    }
}

proof fn lemma_asked_to_stop(trace: Seq<ActorCmd>)
    requires
        trace.len() > 0,
    ensures
        asked_to_stop(trace) <==> asked_to_stop(trace.drop_last()) || trace.last() is Shutdown,
{
    let earlier = trace.drop_last();
    if asked_to_stop(trace) {
        let i = choose|i: int| 0 <= i < trace.len() && #[trigger] trace[i] is Shutdown;
        if i < earlier.len() {
            assert(earlier[i] is Shutdown);
        }
    }
    if asked_to_stop(earlier) {
        let i = choose|i: int| 0 <= i < earlier.len() && #[trigger] earlier[i] is Shutdown;
        assert(trace[i] is Shutdown);
    }
    if trace.last() is Shutdown {
        assert(trace[trace.len() - 1] is Shutdown);
    }
}

/// What a session is answered: superseded if another one opens while it is open,
/// cancelled if it is cancelled, and otherwise what its pipeline has left, as it
/// is. A session that opens after shutdown was asked for is refused.
pub proof fn law_answers_say_why(actor: Actor, config: CoreConfig, cmd: ActorCmd, effect: Effect)
    requires
        actor.reaction(config, cmd).contains(effect),
    ensures
        effect matches Effect::Error(id, message) ==> {
            ||| actor.is_current(id) && !actor.shutting_down && message == "superseded"@ && (
            cmd matches ActorCmd::Req(Request::Begin { .. }))
            ||| actor.is_current(id) && message == "cancelled"@ && (cmd matches ActorCmd::Req(
                Request::Cancel { id: c },
            ) && c == id)
            ||| actor.shutting_down && message == "shutting_down"@ && (cmd matches ActorCmd::Req(
                Request::Begin { id: opened, .. },
            ) && opened == id)
            ||| (cmd matches ActorCmd::PipelineDone { id: ended, response: Some(answer) }
                && actor.is_current(ended) && (answer matches Response::Error { id: to, message: m }
                && to == id && m@ == message))
        },
        effect matches Effect::Answer(response) ==> (cmd matches ActorCmd::PipelineDone {
            id,
            response: Some(answer),
        } && actor.is_current(id) && answer == response),
{
}

/// A session opens as it was asked for: its pipeline is the one thing that
/// starts, with the wish for segmentation as it came, and an older session is
/// cancelled before it.
pub proof fn law_sessions_open_as_asked(
    actor: Actor,
    config: CoreConfig,
    id: u64,
    vad: bool,
    context: Option<String>,
    language: Option<String>,
    enable_itn: Option<bool>,
    enable_llm: Option<bool>,
)
    requires
        !actor.shutting_down,
    ensures
        ({
            let cmd = ActorCmd::Req(
                Request::Begin { id, vad, context, language, enable_itn, enable_llm },
            );
            let effects = actor.reaction(config, cmd);
            &&& actor.after(cmd).current == Some(ActiveSession { id, audio_open: true })
            &&& effects.last() matches Effect::Start(started, wants_vad, params) && started == id
                && wants_vad == vad && params == params::resolved_params(
                config,
                params::optional_text(context),
                params::optional_text(language),
                enable_itn,
                enable_llm,
            )
            &&& forall|i: int|
                0 <= i < effects.len() - 1 ==> !(#[trigger] effects[i] is Start)
            &&& actor.current matches Some(s) ==> effects[0] == Effect::Cancel(s.id)
        }),
{
}

/// The end of the audio is passed on exactly when it is announced for the open
/// session, and at shutdown; the actor stops exactly when shutdown was asked for
/// and no session is open.
pub proof fn law_audio_closes_and_actor_stops(actor: Actor, config: CoreConfig, cmd: ActorCmd, id: u64)
    ensures
        actor.effects(config, cmd).contains(Effect::Close(id)) <==> actor.is_current(id) && (
        cmd is Shutdown || (cmd matches ActorCmd::Req(Request::End { id: e }) && e == id)),
        actor.effects(config, cmd).contains(Effect::Exit) <==> (actor.shutting_down || cmd
            is Shutdown) && actor.after(cmd).current is None,
{
    let reaction = actor.reaction(config, cmd);
    let effects = actor.effects(config, cmd);
    if actor.is_current(id) && (cmd is Shutdown || (cmd matches ActorCmd::Req(
        Request::End { id: e },
    ) && e == id)) {
        assert(reaction[0] == Effect::Close(id));
        assert(effects[0] == Effect::Close(id));
    }
    if actor.after(cmd).finished() {
        assert(effects[effects.len() - 1] == Effect::Exit);
    }
}

/// A pipeline is cancelled exactly when its session gives way: when the session is
/// cancelled, or when another one opens. The session is told so, once, and what
/// its pipeline may still leave is dropped.
pub proof fn law_pipelines_are_cancelled(
    actor: Actor,
    config: CoreConfig,
    cmd: ActorCmd,
    id: u64,
    response: Option<Response>,
)
    ensures
        ({
            let effects = actor.reaction(config, cmd);
            let superseded = !actor.shutting_down && (cmd matches ActorCmd::Req(
                Request::Begin { .. },
            ));
            let cancelled = cmd matches ActorCmd::Req(Request::Cancel { id: c }) && c == id;
            &&& effects.contains(Effect::Cancel(id)) <==> actor.is_current(id) && (superseded
                || cancelled)
            &&& actor.is_current(id) && cancelled ==> effects.contains(
                Effect::Error(id, "cancelled"@),
            ) && actor.after(cmd).current is None
            &&& actor.is_current(id) && superseded ==> effects.contains(
                Effect::Error(id, "superseded"@),
            )
            &&& !actor.is_current(id) ==> actor.reaction(
                config,
                ActorCmd::PipelineDone { id, response },
            ).len() == 0 && actor.after(ActorCmd::PipelineDone { id, response }) == actor
            &&& actor.is_current(id) ==> actor.after(
                ActorCmd::PipelineDone { id, response },
            ).current is None
        }),
{
    let effects = actor.reaction(config, cmd);
    if actor.is_current(id) && effects.len() > 1 {
        assert(effects[0] == Effect::Cancel(id));
        assert(effects[1] is Error);
        assert(effects.contains(effects[1]));
    }
}

/// The model's effects are the actor's actions, in order and one for one.
pub proof fn law_actions_are_modelled_one_for_one(actions: Seq<ActorAction>, i: int)
    requires
        0 <= i < actions.len(),
    ensures
        effects_of(actions).len() == actions.len(),
        match actions[i] {
            ActorAction::CancelPipeline { id } => effects_of(actions)[i] == Effect::Cancel(id),
            ActorAction::Respond(Response::Error { id, message }) => effects_of(actions)[i]
                == Effect::Error(id, message@),
            ActorAction::Respond(response) => effects_of(actions)[i] == Effect::Answer(response),
            ActorAction::StartPipeline { id, vad, params } => effects_of(actions)[i]
                == Effect::Start(id, vad, params@),
            ActorAction::ForwardAudio { id, pcm } => effects_of(actions)[i] == Effect::Audio(
                id,
                pcm@,
            ),
            ActorAction::CloseAudio { id } => effects_of(actions)[i] == Effect::Close(id),
            ActorAction::Exit => effects_of(actions)[i] is Exit,
        },
{
}

} // verus!
