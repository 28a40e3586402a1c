//! What the parts of a call know of each other.

use crate::text;
use vstd::prelude::*;

verus! {

/// The state that the parts of a call share.
pub struct RealtimeSignals {
    /// Audio of the agent is on its way to the caller or being played.
    pub assistant_speaking: bool,
    /// A reply was asked for and is not over.
    pub response_active: bool,
    /// The caller has interrupted and not fallen silent since.
    pub interrupted: bool,
    /// Marks that were sent behind audio and have not come back.
    pub pending_playback_marks: usize,
    /// The number of the reply whose audio may be played.
    pub response_generation: u64,
    pub generated_audio_ms: u64,
    pub played_audio_ms: u64,
    pub queued_audio_ms: u64,
    pub active_response_id: Option<String>,
    /// The reply that was asked for, and when.
    pub response_requested_at: Option<(u64, u64)>,
    /// How often the caller has started to speak.
    pub user_speech_generation: u64,
    pub current_turn_speech_ms: u64,
    pub openai_speech_started_ms: u64,
}

/// What the parts of a call know of each other.
pub ghost struct Signals {
    pub assistant_speaking: bool,
    pub response_active: bool,
    pub interrupted: bool,
    pub pending_playback_marks: usize,
    pub response_generation: u64,
    pub generated_audio_ms: u64,
    pub played_audio_ms: u64,
    pub queued_audio_ms: u64,
    pub active_response_id: Option<Seq<char>>,
    pub response_requested_at: Option<(u64, u64)>,
    pub user_speech_generation: u64,
    pub current_turn_speech_ms: u64,
    pub openai_speech_started_ms: u64,
}

impl View for RealtimeSignals {
    type V = Signals;

    open spec fn view(&self) -> Signals {
        Signals {
            assistant_speaking: self.assistant_speaking,
            response_active: self.response_active,
            interrupted: self.interrupted,
            pending_playback_marks: self.pending_playback_marks,
            response_generation: self.response_generation,
            generated_audio_ms: self.generated_audio_ms,
            played_audio_ms: self.played_audio_ms,
            queued_audio_ms: self.queued_audio_ms,
            active_response_id: text::text_view(self.active_response_id),
            response_requested_at: self.response_requested_at,
            user_speech_generation: self.user_speech_generation,
            current_turn_speech_ms: self.current_turn_speech_ms,
            openai_speech_started_ms: self.openai_speech_started_ms,
        }
    }
}

impl Signals {
    /// A call in which nothing has happened.
    pub open spec fn fresh() -> Signals {
        Signals {
            assistant_speaking: false,
            response_active: false,
            interrupted: false,
            pending_playback_marks: 0,
            response_generation: 1,
            generated_audio_ms: 0,
            played_audio_ms: 0,
            queued_audio_ms: 0,
            active_response_id: None,
            response_requested_at: None,
            user_speech_generation: 0,
            current_turn_speech_ms: 0,
            openai_speech_started_ms: 0,
        }
    }

    /// No audio of the reply was made, queued or played.
    pub open spec fn without_audio(self) -> Signals {
        Signals { generated_audio_ms: 0, played_audio_ms: 0, queued_audio_ms: 0, ..self }
    }

    /// The next reply has begun: audio of the last one is stale.
    pub open spec fn next_generation(self) -> Signals {
        Signals { response_generation: self.response_generation.wrapping_add(1), ..self }
    }

    /// The agent is heard, or about to be.
    pub open spec fn playing(self) -> bool {
        self.assistant_speaking || self.pending_playback_marks > 0
    }

    /// This much more audio of reply `generation` was made; the first audio of
    /// the reply that was asked for ends the wait for it.
    pub open spec fn generated(self, generation: u64, audio_ms: u64) -> Signals {
        Signals {
            generated_audio_ms: (self.generated_audio_ms + audio_ms) as u64,
            response_requested_at: if self.awaits(generation) {
                None
            } else {
                self.response_requested_at
            },
            ..self
        }
    }

    /// The first audio of reply `generation` is waited for.
    pub open spec fn awaits(self, generation: u64) -> bool {
        self.response_requested_at matches Some(asked) && asked.0 == generation
    }
}

impl RealtimeSignals {
    /// A call in which nothing has happened.
    pub fn new() -> (res: Self)
        ensures
            res@ == Signals::fresh(),
    {
        RealtimeSignals {
            assistant_speaking: false,
            response_active: false,
            interrupted: false,
            pending_playback_marks: 0,
            response_generation: 1,
            generated_audio_ms: 0,
            played_audio_ms: 0,
            queued_audio_ms: 0,
            active_response_id: None,
            response_requested_at: None,
            user_speech_generation: 0,
            current_turn_speech_ms: 0,
            openai_speech_started_ms: 0,
        }
    }

    /// Audio of the agent was queued for the caller.
    pub fn audio_queued(&mut self)
        ensures
            final(self)@ == (Signals { assistant_speaking: true, ..old(self)@ }),
    {
        self.assistant_speaking = true;
    }

    /// The reply is over, or could not be had.
    pub fn response_over(&mut self)
        ensures
            final(self)@ == (Signals { response_active: false, ..old(self)@ }),
    {
        self.response_active = false;
    }

    /// No audio of the reply was made, queued or played.
    pub(crate) fn reset_audio(&mut self)
        ensures
            final(self)@ == old(self)@.without_audio(),
    {
        self.generated_audio_ms = 0;
        self.played_audio_ms = 0;
        self.queued_audio_ms = 0;
    }

    /// The wait for the first audio of reply `generation` is over. Returns when
    /// the reply was asked for, if it was waited for.
    pub(crate) fn first_audio(&mut self, generation: u64) -> (res: Option<u64>)
        ensures
            res is Some <==> old(self)@.awaits(generation),
            res matches Some(asked) ==> old(self)@.response_requested_at == Some(
                (generation, asked),
            ),
            final(self)@ == old(self)@.generated(generation, 0),
    {
        match self.response_requested_at {
            Some((requested_generation, asked)) => if requested_generation == generation {
                self.response_requested_at = None;
                return Some(asked);
            },
            None => {},
        }
        None
    }
}

// ---------------------------------------------------------------------------
// Laws
// ---------------------------------------------------------------------------

/// The first audio of a reply ends the wait for that reply and for no other, and
/// all of its length is counted. Nothing else changes.
pub proof fn law_first_audio_ends_the_wait(
    s: Signals,
    awaited: u64,
    asked_ms: u64,
    generation: u64,
    audio_ms: u64,
)
    requires
        s.generated_audio_ms + audio_ms <= u64::MAX,
    ensures
        ({
            let waiting = Signals { response_requested_at: Some((awaited, asked_ms)), ..s };
            let idle = Signals { response_requested_at: None, ..s };
            let heard = Signals {
                generated_audio_ms: (s.generated_audio_ms + audio_ms) as u64,
                ..idle
            };
            &&& waiting.awaits(generation) <==> awaited == generation
            &&& !idle.awaits(generation)
            &&& awaited == generation ==> waiting.generated(generation, audio_ms) == heard
            &&& awaited != generation ==> waiting.generated(generation, audio_ms) == (Signals {
                response_requested_at: Some((awaited, asked_ms)),
                ..heard
            })
            &&& idle.generated(generation, audio_ms) == heard
        }),
{
}

/// Pieces of audio add up: two pieces of a reply count as one of their length.
pub proof fn law_audio_adds_up(s: Signals, generation: u64, first_ms: u64, second_ms: u64)
    requires
        s.generated_audio_ms + first_ms + second_ms <= u64::MAX,
    ensures
        s.generated(generation, first_ms).generated(generation, second_ms) == s.generated(
            generation,
            (first_ms + second_ms) as u64,
        ),
{
}

/// The agent counts as heard while it speaks and while a mark is pending, and at
/// no other time.
pub proof fn law_agent_is_heard(s: Signals)
    ensures
        s.assistant_speaking ==> s.playing(),
        s.pending_playback_marks > 0 ==> s.playing(),
        !s.assistant_speaking && s.pending_playback_marks == 0 ==> !s.playing(),
{
}

/// A call begins with nobody speaking, nothing under way and the first reply to
/// come.
pub proof fn law_call_begins(signals: RealtimeSignals)
    requires
        call_ensures(RealtimeSignals::new, (), signals),
    ensures
        !signals.assistant_speaking && !signals.response_active && !signals.interrupted,
        signals.pending_playback_marks == 0,
        signals.response_generation == 1,
        signals.generated_audio_ms == 0,
        signals.played_audio_ms == 0,
        signals.queued_audio_ms == 0,
        signals.active_response_id is None,
        signals.response_requested_at is None,
        signals.user_speech_generation == 0,
{
}

/// Audio that was queued is heard, and a reply that is over is not under way.
/// Nothing else changes.
pub proof fn law_audio_is_queued_and_replies_end(
    queued: &mut RealtimeSignals,
    over: &mut RealtimeSignals,
)
    requires
        call_ensures(RealtimeSignals::audio_queued, (queued,), ()),
        call_ensures(RealtimeSignals::response_over, (over,), ()),
    ensures
        final(queued).assistant_speaking,
        (Signals { assistant_speaking: old(queued).assistant_speaking, ..final(queued)@ })
            == old(queued)@,
        !final(over).response_active,
        (Signals { response_active: old(over).response_active, ..final(over)@ }) == old(over)@,
{
}

} // verus!
