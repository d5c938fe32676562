//! A timed recording without the hotkey, and how its result is shown.

use crate::proto::{Request, Response, SessionStats};
use crate::text;
use vstd::prelude::*;

verus! {

/// A timed recording.
#[derive(Debug, Clone, Copy)]
pub struct TimedRecording {
    pub id: u64,
    /// Whether the time is up.
    pub ended: bool,
}

/// Something that happened during a timed recording. A source that has closed
/// gives `None`.
#[derive(Debug)]
pub enum TimedEvent {
    Audio(Option<Vec<u8>>),
    Core(Option<Response>),
    /// The time is up.
    TimeUp,
}

/// What is to be done in a timed recording.
#[derive(Debug)]
pub enum TimedAction {
    Continue,
    /// Send a request; the recording fails if this fails.
    Send(Request),
    /// Close the microphone, drop what is still queued, and send a request.
    StopAndSend(Request),
    /// End the recording and show its result.
    Show { text: String, raw: Option<String>, language: Option<String>, stats: SessionStats },
    /// End the recording with an error.
    Fail(String),
}

/// Whether an action is a failure with this text.
pub open spec fn fails_with(action: TimedAction, what: Seq<char>) -> bool {
    action matches TimedAction::Fail(text) && text@ == what
}

impl TimedRecording {
    /// A recording in session `id`.
    pub fn new(id: u64) -> (r: Self)
        ensures
            r == (TimedRecording { id, ended: false }),
    {
        TimedRecording { id, ended: false }
    }

    /// Takes one event. The session ends once, when the time is up.
    pub fn step(&mut self, event: TimedEvent) -> (r: TimedAction)
        ensures
            *final(self) == (TimedRecording {
                id: old(self).id,
                ended: old(self).ended || event is TimeUp,
            }),
            match event {
                TimedEvent::Audio(Some(pcm)) => r == TimedAction::Send(
                    Request::Chunk { id: old(self).id, pcm },
                ),
                TimedEvent::Audio(None) => fails_with(r, "audio capture thread died"@),
                TimedEvent::Core(
                    Some(Response::Result { text, raw, language, stats, .. }),
                ) => r == (TimedAction::Show { text, raw, language, stats }),
                TimedEvent::Core(Some(Response::Error { message, .. })) => fails_with(
                    r,
                    "core error: "@ + message@,
                ),
                TimedEvent::Core(Some(Response::Ready { .. })) => r is Continue,
                TimedEvent::Core(None) => fails_with(r, "core closed unexpectedly"@),
                TimedEvent::TimeUp => if old(self).ended {
                    r is Continue
                } else {
                    r == TimedAction::StopAndSend(Request::End { id: old(self).id })
                },
            },
    {
        match event {
            TimedEvent::Audio(Some(pcm)) => TimedAction::Send(Request::Chunk { id: self.id, pcm }),
            TimedEvent::Audio(None) => TimedAction::Fail("audio capture thread died".to_owned()),
            TimedEvent::Core(
                Some(Response::Result { text, raw, language, stats, .. }),
            ) => TimedAction::Show { text, raw, language, stats },
            TimedEvent::Core(Some(Response::Error { message, .. })) => TimedAction::Fail(
                "core error: ".to_owned().concat(message.as_str()),
            ),
            TimedEvent::Core(Some(Response::Ready { .. })) => TimedAction::Continue,
            TimedEvent::Core(None) => TimedAction::Fail("core closed unexpectedly".to_owned()),
            TimedEvent::TimeUp => {
                if self.ended {
                    TimedAction::Continue
                } else {
                    self.ended = true;
                    TimedAction::StopAndSend(Request::End { id: self.id })
                }
            },
        }
    }
}

/// The line with the counters.
pub open spec fn stats_line(stats: SessionStats) -> Seq<char> {
    "    stats: pcm_sent="@ + text::decimal(stats.pcm_sent_to_asr_ms as nat) + "ms asr="@
        + text::decimal(stats.asr_latency_ms as nat) + "ms total="@ + text::decimal(
        stats.total_latency_ms as nat,
    ) + "ms asr_calls="@ + text::decimal(stats.asr_calls as nat)
}

/// A result as lines. The text before cleanup is only shown where it differs.
pub open spec fn result_view(
    text: Seq<char>,
    raw: Option<Seq<char>>,
    language: Option<Seq<char>>,
    stats: SessionStats,
) -> Seq<Seq<char>> {
    let first = seq![seq![], "    text : "@ + text];
    let second = match raw {
        Some(raw) => if raw != text {
            seq!["    raw  : "@ + raw]
        } else {
            seq![]
        },
        None => seq![],
    };
    let third = match language {
        Some(language) => seq!["    lang : "@ + language],
        None => seq![],
    };
    first + second + third + seq![stats_line(stats)]
}

/// The lines that show a result.
pub fn result_lines(
    text: &str,
    raw: Option<&str>,
    language: Option<&str>,
    stats: &SessionStats,
) -> (r: Vec<String>)
    ensures
        text::texts(r@) == result_view(
            text@,
            match raw {
                Some(raw) => Some(raw@),
                None => None,
            },
            match language {
                Some(language) => Some(language@),
                None => None,
            },
            *stats,
        ),
{
    let mut lines: Vec<String> = Vec::new();
    lines.push(String::new());
    lines.push("    text : ".to_owned().concat(text));
    if let Some(raw) = raw {
        if !text::same(raw, text) {
            lines.push("    raw  : ".to_owned().concat(raw));
        }
    }
    if let Some(language) = language {
        lines.push("    lang : ".to_owned().concat(language));
    }
    lines.push(
        "    stats: pcm_sent=".to_owned().concat(
            text::decimal_of(stats.pcm_sent_to_asr_ms as u64).as_str(),
        ).concat("ms asr=").concat(text::decimal_of(stats.asr_latency_ms as u64).as_str()).concat(
            "ms total=",
        ).concat(text::decimal_of(stats.total_latency_ms as u64).as_str()).concat(
            "ms asr_calls=",
        ).concat(text::decimal_of(stats.asr_calls as u64).as_str()),
    );
    assert(text::texts(lines@) =~= result_view(
        text@,
        match raw {
            Some(raw) => Some(raw@),
            None => None,
        },
        match language {
            Some(language) => Some(language@),
            None => None,
        },
        *stats,
    ));
    lines
}

// ─── Laws ──────────────────────────────────────────────────────────────

/// A result is shown whole: the text, the text before cleanup where it differs,
/// the language where there is one, and the counters, in this order.
pub proof fn law_results_are_shown_whole(
    text: Seq<char>,
    raw: Option<Seq<char>>,
    language: Option<Seq<char>>,
    stats: SessionStats,
)
    ensures
        ({
            let lines = result_view(text, raw, language, stats);
            let differs = raw is Some && raw->0 != text;
            let at = if differs {
                3int
            } else {
                2
            };
            &&& lines.len() == at + (if language is Some {
                2int
            } else {
                1
            })
            &&& lines[0].len() == 0
            &&& lines[1] == "    text : "@ + text
            &&& differs ==> lines[2] == "    raw  : "@ + raw->0
            &&& language is Some ==> lines[at] == "    lang : "@ + language->0
            &&& lines.last() == "    stats: pcm_sent="@ + text::decimal(
                stats.pcm_sent_to_asr_ms as nat,
            ) + "ms asr="@ + text::decimal(stats.asr_latency_ms as nat) + "ms total="@
                + text::decimal(stats.total_latency_ms as nat) + "ms asr_calls="@ + text::decimal(
                stats.asr_calls as nat,
            )
        }),
{
}

/// A failure shows its text, and only a failure is one.
pub proof fn law_failures_show_their_text(action: TimedAction, what: Seq<char>)
    ensures
        fails_with(action, what) ==> action is Fail && action->Fail_0@ == what,
        action matches TimedAction::Fail(shown) ==> fails_with(action, shown@),
{
}

} // verus!
