//! The speech-to-speech model: what it is told, what it says, and when it is
//! asked for a reply.

use crate::audio;
use crate::config::{AppState, TurnTakingConfig};
use crate::json;
use crate::json::JsonTree;
use crate::payload;
use crate::response_policy;
use crate::signals::{RealtimeSignals, Signals};
use crate::text;
use crate::twilio;
use serde_json::Value;
use vstd::prelude::*;

verus! {

pub const OPENAI_TURN_DETECTION: &'static str = "server_vad";

// ---------------------------------------------------------------------------
// What the model is told
// ---------------------------------------------------------------------------

/// Where a model is reached.
pub fn realtime_url(model: &str) -> (res: String)
    ensures
        res@ == "wss://api.openai.com/v1/realtime?model="@ + model@,
{
    let mut res = "wss://api.openai.com/v1/realtime?model=".to_owned();
    res.append(model);
    res
}

/// Audio of the caller.
pub open spec fn append_tree(payload: Seq<char>) -> JsonTree {
    json::object(
        seq![
            ("type"@, JsonTree::Text("input_audio_buffer.append"@)),
            ("audio"@, JsonTree::Text(payload)),
        ],
    )
}

/// Audio of the caller.
pub fn append_audio_ulaw(b64_payload: &str) -> (res: Value)
    ensures
        json::json_tree(res) == append_tree(b64_payload@),
{
    let mut entries: Vec<(String, Value)> = Vec::new();
    entries.push(json::text_entry("type", "input_audio_buffer.append"));
    entries.push(json::text_entry("audio", b64_payload));
    assert(json::entry_trees(entries@) =~= seq![
        ("type"@, JsonTree::Text("input_audio_buffer.append"@)),
        ("audio"@, JsonTree::Text(b64_payload@)),
    ]);
    json::object_value(entries)
}

/// The demand to stop a reply.
pub open spec fn cancel_tree() -> JsonTree {
    json::object(seq![("type"@, JsonTree::Text("response.cancel"@))])
}

/// The demand to stop a reply.
pub fn cancel_response() -> (res: Value)
    ensures
        json::json_tree(res) == cancel_tree(),
{
    let mut entries: Vec<(String, Value)> = Vec::new();
    entries.push(json::text_entry("type", "response.cancel"));
    assert(json::entry_trees(entries@) =~= seq![
        ("type"@, JsonTree::Text("response.cancel"@)),
    ]);
    json::object_value(entries)
}

/// A model that speaks and writes.
pub open spec fn modalities() -> JsonTree {
    JsonTree::Array(seq![JsonTree::Text("audio"@), JsonTree::Text("text"@)])
}

fn modalities_value() -> (res: Value)
    ensures
        json::json_tree(res) == modalities(),
{
    let mut list: Vec<Value> = Vec::new();
    list.push(json::text_value("audio"));
    list.push(json::text_value("text"));
    assert(json::value_trees(list@) =~= seq![JsonTree::Text("audio"@), JsonTree::Text("text"@)]);
    json::array_value(list)
}

/// The demand for a reply within its budget.
pub open spec fn create_tree(instructions: Seq<char>, max_tokens: u32) -> JsonTree {
    json::object(
        seq![
            ("type"@, JsonTree::Text("response.create"@)),
            (
                "response"@,
                json::object(
                    seq![
                        ("modalities"@, modalities()),
                        ("instructions"@, JsonTree::Text(instructions)),
                        ("max_output_tokens"@, JsonTree::Unsigned(max_tokens as u64)),
                    ],
                ),
            ),
        ],
    )
}

/// The demand for a reply, the shorter the more audio waits to be played.
pub fn create_response(state: &AppState, backlog_ms: u64) -> (res: Value)
    ensures
        json::json_tree(res) == create_tree(
            response_policy::budget_instructions(
                state.response_instructions@,
                response_policy::budget_mode(
                    backlog_ms,
                    state.backlog_low_water_ms,
                    state.backlog_high_water_ms,
                ),
                backlog_ms as nat,
            ),
            response_policy::budget_tokens(
                state.max_response_tokens,
                backlog_ms,
                state.backlog_low_water_ms,
                state.backlog_high_water_ms,
            ),
        ),
{
    let budget = response_policy::response_budget(
        state.max_response_tokens,
        backlog_ms,
        state.backlog_low_water_ms,
        state.backlog_high_water_ms,
    );
    let max_tokens: u32 = budget.max_tokens;
    let instructions = response_policy::response_instructions_for_budget(
        state.response_instructions.as_str(),
        budget,
        backlog_ms,
    );
    let mut response: Vec<(String, Value)> = Vec::new();
    response.push(json::entry("modalities", modalities_value()));
    response.push(json::text_entry("instructions", instructions.as_str()));
    response.push(json::unsigned_entry("max_output_tokens", max_tokens as u64));
    let ghost response_trees = seq![
        ("modalities"@, modalities()),
        ("instructions"@, JsonTree::Text(instructions@)),
        ("max_output_tokens"@, JsonTree::Unsigned(max_tokens as u64)),
    ];
    assert(json::entry_trees(response@) =~= response_trees);
    let mut entries: Vec<(String, Value)> = Vec::new();
    entries.push(json::text_entry("type", "response.create"));
    entries.push(json::entry("response", json::object_value(response)));
    assert(json::entry_trees(entries@) =~= seq![
        ("type"@, JsonTree::Text("response.create"@)),
        ("response"@, json::object(response_trees)),
    ]);
    json::object_value(entries)
}

/// How the model tells speech from silence.
pub open spec fn turn_detection_tree(turn: TurnTakingConfig, threshold: JsonTree) -> JsonTree {
    json::object(
        seq![
            ("type"@, JsonTree::Text(OPENAI_TURN_DETECTION@)),
            ("threshold"@, threshold),
            ("prefix_padding_ms"@, JsonTree::Unsigned(turn.vad_prefix_padding_ms as u64)),
            ("silence_duration_ms"@, JsonTree::Unsigned(turn.vad_silence_duration_ms as u64)),
            ("create_response"@, JsonTree::Bool(false)),
            ("interrupt_response"@, JsonTree::Bool(false)),
        ],
    )
}

fn turn_detection(turn: &TurnTakingConfig, threshold: Value) -> (res: Value)
    ensures
        json::json_tree(res) == turn_detection_tree(*turn, json::json_tree(threshold)),
{
    let ghost sure = json::json_tree(threshold);
    let mut entries: Vec<(String, Value)> = Vec::new();
    entries.push(json::text_entry("type", OPENAI_TURN_DETECTION));
    entries.push(json::entry("threshold", threshold));
    entries.push(json::unsigned_entry("prefix_padding_ms", turn.vad_prefix_padding_ms as u64));
    entries.push(
        json::unsigned_entry("silence_duration_ms", turn.vad_silence_duration_ms as u64),
    );
    entries.push(json::flag_entry("create_response", false));
    entries.push(json::flag_entry("interrupt_response", false));
    assert(json::entry_trees(entries@) =~= seq![
        ("type"@, JsonTree::Text(OPENAI_TURN_DETECTION@)),
        ("threshold"@, sure),
        ("prefix_padding_ms"@, JsonTree::Unsigned(turn.vad_prefix_padding_ms as u64)),
        ("silence_duration_ms"@, JsonTree::Unsigned(turn.vad_silence_duration_ms as u64)),
        ("create_response"@, JsonTree::Bool(false)),
        ("interrupt_response"@, JsonTree::Bool(false)),
    ]);
    json::object_value(entries)
}

/// How the model is to speak, hear and behave.
pub open spec fn session_tree(
    state: AppState,
    threshold: JsonTree,
    temperature: JsonTree,
) -> JsonTree {
    json::object(
        seq![
            ("modalities"@, modalities()),
            ("voice"@, JsonTree::Text(state.openai_voice@)),
            ("instructions"@, JsonTree::Text(state.persona_instructions@)),
            ("input_audio_format"@, JsonTree::Text("g711_ulaw"@)),
            ("output_audio_format"@, JsonTree::Text("g711_ulaw"@)),
            ("turn_detection"@, turn_detection_tree(state.turn, threshold)),
            ("temperature"@, temperature),
        ],
    )
}

/// The first message to the model. The threshold of its speech detector and
/// the temperature are fractions, which the caller writes.
pub fn session_update(state: &AppState, threshold: Value, temperature: Value) -> (res: Value)
    ensures
        json::json_tree(res) == json::object(
            seq![
                ("type"@, JsonTree::Text("session.update"@)),
                (
                    "session"@,
                    session_tree(
                        *state,
                        json::json_tree(threshold),
                        json::json_tree(temperature),
                    ),
                ),
            ],
        ),
{
    let ghost sure = json::json_tree(threshold);
    let ghost warm = json::json_tree(temperature);
    let mut session: Vec<(String, Value)> = Vec::new();
    session.push(json::entry("modalities", modalities_value()));
    session.push(json::text_entry("voice", state.openai_voice.as_str()));
    session.push(json::text_entry("instructions", state.persona_instructions.as_str()));
    session.push(json::text_entry("input_audio_format", "g711_ulaw"));
    session.push(json::text_entry("output_audio_format", "g711_ulaw"));
    session.push(json::entry("turn_detection", turn_detection(&state.turn, threshold)));
    session.push(json::entry("temperature", temperature));
    assert(json::entry_trees(session@) =~= seq![
        ("modalities"@, modalities()),
        ("voice"@, JsonTree::Text(state.openai_voice@)),
        ("instructions"@, JsonTree::Text(state.persona_instructions@)),
        ("input_audio_format"@, JsonTree::Text("g711_ulaw"@)),
        ("output_audio_format"@, JsonTree::Text("g711_ulaw"@)),
        ("turn_detection"@, turn_detection_tree(state.turn, sure)),
        ("temperature"@, warm),
    ]);
    let mut entries: Vec<(String, Value)> = Vec::new();
    entries.push(json::text_entry("type", "session.update"));
    entries.push(json::entry("session", json::object_value(session)));
    assert(json::entry_trees(entries@) =~= seq![
        ("type"@, JsonTree::Text("session.update"@)),
        ("session"@, session_tree(*state, sure, warm)),
    ]);
    json::object_value(entries)
}

// ---------------------------------------------------------------------------
// What the model says
// ---------------------------------------------------------------------------

/// A message of the model.
pub enum RealtimeEvent {
    ResponseCreated { response_id: Option<String> },
    SpeechStarted { audio_start_ms: u64 },
    SpeechStopped { audio_end_ms: Option<u64> },
    AudioDelta { delta: Option<String>, response_id: Option<String> },
    ResponseDone,
    UserTranscript { text: Option<String> },
    AssistantTranscript { text: Option<String> },
    ResponseCancelled,
    Failure,
    Other,
}

/// What a message of the model says.
pub ghost enum ModelNews {
    ResponseCreated { response_id: Option<Seq<char>> },
    SpeechStarted { audio_start_ms: u64 },
    SpeechStopped { audio_end_ms: Option<u64> },
    AudioDelta { delta: Option<Seq<char>>, response_id: Option<Seq<char>> },
    ResponseDone,
    UserTranscript { text: Option<Seq<char>> },
    AssistantTranscript { text: Option<Seq<char>> },
    ResponseCancelled,
    Failure,
    Other,
}

impl View for RealtimeEvent {
    type V = ModelNews;

    open spec fn view(&self) -> ModelNews {
        match *self {
            RealtimeEvent::ResponseCreated { response_id } => ModelNews::ResponseCreated {
                response_id: text::text_view(response_id),
            },
            RealtimeEvent::SpeechStarted { audio_start_ms } => ModelNews::SpeechStarted {
                audio_start_ms,
            },
            RealtimeEvent::SpeechStopped { audio_end_ms } => ModelNews::SpeechStopped {
                audio_end_ms,
            },
            RealtimeEvent::AudioDelta { delta, response_id } => ModelNews::AudioDelta {
                delta: text::text_view(delta),
                response_id: text::text_view(response_id),
            },
            RealtimeEvent::ResponseDone => ModelNews::ResponseDone,
            RealtimeEvent::UserTranscript { text } => ModelNews::UserTranscript {
                text: text::text_view(text),
            },
            RealtimeEvent::AssistantTranscript { text } => ModelNews::AssistantTranscript {
                text: text::text_view(text),
            },
            RealtimeEvent::ResponseCancelled => ModelNews::ResponseCancelled,
            RealtimeEvent::Failure => ModelNews::Failure,
            RealtimeEvent::Other => ModelNews::Other,
        }
    }
}

/// The reply that a message belongs to, named at its top or in its details.
pub open spec fn response_id_in(tree: JsonTree) -> Option<Seq<char>> {
    match tree.text_at("response_id"@) {
        Some(id) => Some(id),
        None => tree.text_in("response"@, "id"@),
    }
}

/// The reply that a message belongs to.
pub fn response_id(value: &Value) -> (res: Option<String>)
    ensures
        text::text_view(res) == response_id_in(json::json_tree(*value)),
{
    match json::text_at(value, "response_id") {
        Some(id) => Some(id),
        None => json::text_in(value, "response", "id"),
    }
}

/// What the agent has said: the `transcript` if there is one, of whatever
/// kind, or else the `text`.
pub open spec fn assistant_text_in(tree: JsonTree) -> Option<Seq<char>> {
    match tree.member("transcript"@) {
        Some(transcript) => transcript.text(),
        None => tree.text_at("text"@),
    }
}

fn assistant_text(value: &Value) -> (res: Option<String>)
    ensures
        text::text_view(res) == assistant_text_in(json::json_tree(*value)),
{
    match json::member(value, "transcript") {
        Some(transcript) => match json::text(transcript) {
            Some(found) => Some(found.to_owned()),
            None => None,
        },
        None => json::text_at(value, "text"),
    }
}

/// What a message of the model says, by its `type`.
pub open spec fn model_news_in(tree: JsonTree) -> ModelNews {
    match tree.text_at("type"@) {
        Some(kind) => if kind == "response.created"@ {
            ModelNews::ResponseCreated { response_id: response_id_in(tree) }
        } else if kind == "input_audio_buffer.speech_started"@ {
            ModelNews::SpeechStarted {
                audio_start_ms: twilio::number_or(tree.unsigned_at("audio_start_ms"@), 0),
            }
        } else if kind == "input_audio_buffer.speech_stopped"@ {
            ModelNews::SpeechStopped { audio_end_ms: tree.unsigned_at("audio_end_ms"@) }
        } else if kind == "response.audio.delta"@ {
            ModelNews::AudioDelta {
                delta: tree.text_at("delta"@),
                response_id: response_id_in(tree),
            }
        } else if kind == "response.done"@ {
            ModelNews::ResponseDone
        } else if kind == "conversation.item.input_audio_transcription.completed"@ {
            ModelNews::UserTranscript { text: tree.text_at("transcript"@) }
        } else if kind == "response.audio_transcript.done"@ || kind
            == "response.output_text.done"@ {
            ModelNews::AssistantTranscript { text: assistant_text_in(tree) }
        } else if kind == "response.cancelled"@ {
            ModelNews::ResponseCancelled
        } else if kind == "error"@ {
            ModelNews::Failure
        } else {
            ModelNews::Other
        },
        None => ModelNews::Other,
    }
}

/// What a message of the model says, by its `type`.
pub fn realtime_event(value: &Value) -> (res: RealtimeEvent)
    ensures
        res@ == model_news_in(json::json_tree(*value)),
{
    let kind = match json::text_at(value, "type") {
        Some(kind) => kind,
        None => {
            return RealtimeEvent::Other;
        },
    };
    let kind = kind.as_str();
    if text::same_text(kind, "response.created") {
        RealtimeEvent::ResponseCreated { response_id: response_id(value) }
    } else if text::same_text(kind, "input_audio_buffer.speech_started") {
        let audio_start_ms: u64 = match json::unsigned_at(value, "audio_start_ms") {
            Some(n) => n,
            None => 0,
        };
        RealtimeEvent::SpeechStarted { audio_start_ms }
    } else if text::same_text(kind, "input_audio_buffer.speech_stopped") {
        RealtimeEvent::SpeechStopped { audio_end_ms: json::unsigned_at(value, "audio_end_ms") }
    } else if text::same_text(kind, "response.audio.delta") {
        let delta = json::text_at(value, "delta");
        RealtimeEvent::AudioDelta { delta, response_id: response_id(value) }
    } else if text::same_text(kind, "response.done") {
        RealtimeEvent::ResponseDone
    } else if text::same_text(kind, "conversation.item.input_audio_transcription.completed") {
        RealtimeEvent::UserTranscript { text: json::text_at(value, "transcript") }
    } else if text::same_text(kind, "response.audio_transcript.done") || text::same_text(
        kind,
        "response.output_text.done",
    ) {
        RealtimeEvent::AssistantTranscript { text: assistant_text(value) }
    } else if text::same_text(kind, "response.cancelled") {
        RealtimeEvent::ResponseCancelled
    } else if text::same_text(kind, "error") {
        RealtimeEvent::Failure
    } else {
        RealtimeEvent::Other
    }
}

/// What a message of the model says, if it is JSON.
pub fn read_realtime_event(text: &str) -> (res: Option<RealtimeEvent>)
    ensures
        res is Some <==> json::json_of_text(text@) is Some,
        res matches Some(event) ==> json::json_of_text(text@) matches Some(tree) && event@
            == model_news_in(tree),
{
    match json::parse_json(text) {
        Some(value) => Some(realtime_event(&value)),
        None => None,
    }
}

// ---------------------------------------------------------------------------
// Turns
// ---------------------------------------------------------------------------

/// How long the caller has spoken: nothing where the end is unknown or before
/// the start.
pub open spec fn turn_ms(audio_end_ms: Option<u64>, started_ms: u64) -> u64 {
    match audio_end_ms {
        Some(end) => if end > started_ms {
            (end - started_ms) as u64
        } else {
            0
        },
        None => 0,
    }
}

/// How long the caller has spoken.
pub fn openai_turn_speech_ms(audio_end_ms: Option<u64>, started_ms: u64) -> (res: u64)
    ensures
        res == turn_ms(audio_end_ms, started_ms),
{
    match audio_end_ms {
        Some(end) => end.saturating_sub(started_ms),
        None => 0,
    }
}

/// How long to wait for more before an answer: the shorter the longer the
/// caller has spoken.
pub open spec fn grace(turn_speech_ms: u64, turn: TurnTakingConfig) -> u64 {
    if turn_speech_ms >= 1_500 {
        turn.long_turn_grace_ms
    } else if turn_speech_ms >= 600 {
        turn.normal_turn_grace_ms
    } else {
        turn.short_turn_grace_ms
    }
}

/// How long to wait for more before an answer.
pub fn response_grace_ms(turn_speech_ms: u64, turn: &TurnTakingConfig) -> (res: u64)
    ensures
        res == grace(turn_speech_ms, *turn),
{
    if turn_speech_ms >= 1_500 {
        turn.long_turn_grace_ms
    } else if turn_speech_ms >= 600 {
        turn.normal_turn_grace_ms
    } else {
        turn.short_turn_grace_ms
    }
}

/// The caller has not spoken again, and no reply is on its way.
pub open spec fn answer_due(s: Signals, stopped_generation: u64) -> bool {
    s.user_speech_generation == stopped_generation && !s.response_active
}

/// A reply was asked for at `now_ms`.
pub open spec fn asked(s: Signals, now_ms: u64) -> Signals {
    let next = s.without_audio().next_generation();
    Signals {
        interrupted: false,
        response_requested_at: Some((next.response_generation, now_ms)),
        active_response_id: None,
        response_active: true,
        ..next
    }
}

/// The wait after a turn is over. Returns the number of the reply that is to
/// be asked for, if the turn is still to be answered.
pub fn grace_over(signals: &mut RealtimeSignals, stopped_generation: u64, now_ms: u64) -> (res:
    Option<u64>)
    requires
        answer_due(old(signals)@, stopped_generation) ==> old(signals).response_generation
            < u64::MAX,
    ensures
        res == if answer_due(old(signals)@, stopped_generation) {
            Some((old(signals).response_generation + 1) as u64)
        } else {
            None
        },
        final(signals)@ == if answer_due(old(signals)@, stopped_generation) {
            asked(old(signals)@, now_ms)
        } else {
            old(signals)@
        },
{
    if signals.user_speech_generation != stopped_generation || signals.response_active {
        return None;
    }
    let generation: u64 = signals.response_generation + 1;
    signals.response_generation = generation;
    signals.reset_audio();
    signals.interrupted = false;
    signals.response_requested_at = Some((generation, now_ms));
    signals.active_response_id = None;
    signals.response_active = true;
    Some(generation)
}

// ---------------------------------------------------------------------------
// The conversation
// ---------------------------------------------------------------------------

/// What is to be done about a message of the model.
pub enum RealtimeAction {
    Nothing,
    /// The message is of no account.
    Skip,
    /// Shape the voice of a new reply.
    NewVoice,
    /// Forget the voice of the reply that is over.
    DropVoice,
    /// Tell the model to stop.
    Cancel,
    /// Ask for a reply after a wait, unless the caller goes on.
    AwaitGrace { stopped_generation: u64, turn_speech_ms: u64, grace_ms: u64 },
    /// Shape audio of a reply and hand it to [`finish_delta`].
    Play { delta: String, generation: u64 },
    RecordUser { text: String },
    RecordAssistant { text: String },
}

/// What is to be done about a message of the model.
pub ghost enum Reaction {
    Nothing,
    Skip,
    NewVoice,
    DropVoice,
    Cancel,
    AwaitGrace { stopped_generation: u64, turn_speech_ms: u64, grace_ms: u64 },
    Play { delta: Seq<char>, generation: u64 },
    RecordUser { text: Seq<char> },
    RecordAssistant { text: Seq<char> },
}

impl View for RealtimeAction {
    type V = Reaction;

    open spec fn view(&self) -> Reaction {
        match *self {
            RealtimeAction::Nothing => Reaction::Nothing,
            RealtimeAction::Skip => Reaction::Skip,
            RealtimeAction::NewVoice => Reaction::NewVoice,
            RealtimeAction::DropVoice => Reaction::DropVoice,
            RealtimeAction::Cancel => Reaction::Cancel,
            RealtimeAction::AwaitGrace { stopped_generation, turn_speech_ms, grace_ms } =>
                Reaction::AwaitGrace { stopped_generation, turn_speech_ms, grace_ms },
            RealtimeAction::Play { delta, generation } => Reaction::Play {
                delta: delta@,
                generation,
            },
            RealtimeAction::RecordUser { text } => Reaction::RecordUser { text: text@ },
            RealtimeAction::RecordAssistant { text } => Reaction::RecordAssistant { text: text@ },
        }
    }
}

/// The caller speaks before a reply is heard: the reply is not wanted any more.
pub open spec fn overtaken(s: Signals) -> bool {
    s.response_active && !s.assistant_speaking
}

/// Audio of another reply than the one under way.
pub open spec fn foreign(s: Signals, response_id: Option<Seq<char>>) -> bool {
    match (s.active_response_id, response_id) {
        (Some(active), Some(id)) => active != id,
        _ => false,
    }
}

/// Nothing is waited for, and no reply is under way.
pub open spec fn idle(s: Signals) -> Signals {
    Signals {
        response_active: false,
        response_requested_at: None,
        active_response_id: None,
        ..s
    }
}

/// What changes when the caller starts to speak.
pub open spec fn caller_started(s: Signals, audio_start_ms: u64) -> Signals {
    let heard = Signals {
        user_speech_generation: s.user_speech_generation.wrapping_add(1),
        current_turn_speech_ms: 0,
        openai_speech_started_ms: audio_start_ms,
        ..s
    };
    if overtaken(s) {
        idle(heard).next_generation()
    } else {
        heard
    }
}

/// What a message of the model changes.
pub open spec fn after_news(s: Signals, news: ModelNews) -> Signals {
    match news {
        ModelNews::ResponseCreated { response_id } => Signals {
            response_active: true,
            active_response_id: if response_id is Some {
                response_id
            } else {
                s.active_response_id
            },
            ..s
        },
        ModelNews::SpeechStarted { audio_start_ms } => caller_started(s, audio_start_ms),
        ModelNews::AudioDelta { delta: Some(_), response_id } => if s.active_response_id is None {
            Signals { active_response_id: response_id, ..s }
        } else {
            s
        },
        ModelNews::ResponseDone => Signals {
            assistant_speaking: s.assistant_speaking && s.pending_playback_marks > 0,
            ..idle(s)
        },
        ModelNews::ResponseCancelled => Signals {
            pending_playback_marks: 0,
            assistant_speaking: false,
            ..idle(s)
        },
        ModelNews::Failure => idle(s),
        _ => s,
    }
}

/// What is to be done about a message of the model.
pub open spec fn reaction(s: Signals, news: ModelNews, turn: TurnTakingConfig) -> Reaction {
    match news {
        ModelNews::ResponseCreated { .. } => Reaction::NewVoice,
        ModelNews::SpeechStarted { .. } => if overtaken(s) {
            Reaction::Cancel
        } else {
            Reaction::Nothing
        },
        ModelNews::SpeechStopped { audio_end_ms } => {
            let turn_speech_ms = turn_ms(audio_end_ms, s.openai_speech_started_ms);
            if turn_speech_ms < turn.min_response_speech_ms {
                Reaction::Skip
            } else {
                Reaction::AwaitGrace {
                    stopped_generation: s.user_speech_generation,
                    turn_speech_ms,
                    grace_ms: grace(turn_speech_ms, turn),
                }
            }
        },
        ModelNews::AudioDelta { delta: Some(delta), response_id } => if foreign(s, response_id) {
            Reaction::Skip
        } else {
            Reaction::Play { delta, generation: s.response_generation }
        },
        ModelNews::AudioDelta { delta: None, .. } => Reaction::Nothing,
        ModelNews::ResponseDone => Reaction::DropVoice,
        ModelNews::ResponseCancelled => Reaction::DropVoice,
        ModelNews::Failure => Reaction::DropVoice,
        ModelNews::UserTranscript { text: Some(text) } => Reaction::RecordUser { text },
        ModelNews::UserTranscript { text: None } => Reaction::Nothing,
        ModelNews::AssistantTranscript { text: Some(text) } => Reaction::RecordAssistant { text },
        ModelNews::AssistantTranscript { text: None } => Reaction::Nothing,
        ModelNews::Other => Reaction::Nothing,
    }
}

fn make_idle(signals: &mut RealtimeSignals)
    ensures
        final(signals)@ == idle(old(signals)@),
{
    signals.response_active = false;
    signals.response_requested_at = None;
    signals.active_response_id = None;
}

/// The caller starts to speak. Returns whether the reply under way is to be
/// cancelled.
pub fn speech_started(signals: &mut RealtimeSignals, audio_start_ms: u64) -> (res: bool)
    ensures
        res == overtaken(old(signals)@),
        final(signals)@ == caller_started(old(signals)@, audio_start_ms),
{
    signals.user_speech_generation = signals.user_speech_generation.wrapping_add(1);
    signals.current_turn_speech_ms = 0;
    signals.openai_speech_started_ms = audio_start_ms;
    if signals.response_active && !signals.assistant_speaking {
        make_idle(signals);
        signals.response_generation = signals.response_generation.wrapping_add(1);
        true
    } else {
        false
    }
}

/// Whether audio belongs to the reply under way, which it names if none was
/// named before.
fn claim_audio(signals: &mut RealtimeSignals, response_id: Option<String>) -> (res: bool)
    ensures
        res == !foreign(old(signals)@, text::text_view(response_id)),
        final(signals)@ == if old(signals)@.active_response_id is None {
            Signals { active_response_id: text::text_view(response_id), ..old(signals)@ }
        } else {
            old(signals)@
        },
{
    match &signals.active_response_id {
        Some(active) => match &response_id {
            Some(id) => text::same_text(active.as_str(), id.as_str()),
            None => true,
        },
        None => {
            signals.active_response_id = response_id;
            true
        },
    }
}

/// Takes a message of the model.
pub fn hear_model(
    signals: &mut RealtimeSignals,
    event: RealtimeEvent,
    turn: &TurnTakingConfig,
) -> (res: RealtimeAction)
    ensures
        res@ == reaction(old(signals)@, event@, *turn),
        final(signals)@ == after_news(old(signals)@, event@),
{
    match event {
        RealtimeEvent::ResponseCreated { response_id } => {
            signals.response_active = true;
            if response_id.is_some() {
                signals.active_response_id = response_id;
            }
            RealtimeAction::NewVoice
        },
        RealtimeEvent::SpeechStarted { audio_start_ms } => {
            if speech_started(signals, audio_start_ms) {
                RealtimeAction::Cancel
            } else {
                RealtimeAction::Nothing
            }
        },
        RealtimeEvent::SpeechStopped { audio_end_ms } => {
            let turn_speech_ms: u64 = openai_turn_speech_ms(
                audio_end_ms,
                signals.openai_speech_started_ms,
            );
            if turn_speech_ms < turn.min_response_speech_ms {
                return RealtimeAction::Skip;
            }
            RealtimeAction::AwaitGrace {
                stopped_generation: signals.user_speech_generation,
                turn_speech_ms,
                grace_ms: response_grace_ms(turn_speech_ms, turn),
            }
        },
        RealtimeEvent::AudioDelta { delta, response_id } => match delta {
            Some(delta) => {
                if claim_audio(signals, response_id) {
                    RealtimeAction::Play { delta, generation: signals.response_generation }
                } else {
                    RealtimeAction::Skip
                }
            },
            None => RealtimeAction::Nothing,
        },
        RealtimeEvent::ResponseDone => {
            make_idle(signals);
            if signals.pending_playback_marks == 0 {
                signals.assistant_speaking = false;
            }
            RealtimeAction::DropVoice
        },
        RealtimeEvent::UserTranscript { text } => match text {
            Some(text) => RealtimeAction::RecordUser { text },
            None => RealtimeAction::Nothing,
        },
        RealtimeEvent::AssistantTranscript { text } => match text {
            Some(text) => RealtimeAction::RecordAssistant { text },
            None => RealtimeAction::Nothing,
        },
        RealtimeEvent::ResponseCancelled => {
            make_idle(signals);
            signals.pending_playback_marks = 0;
            signals.assistant_speaking = false;
            RealtimeAction::DropVoice
        },
        RealtimeEvent::Failure => {
            make_idle(signals);
            RealtimeAction::DropVoice
        },
        RealtimeEvent::Other => RealtimeAction::Nothing,
    }
}

/// The agent has fallen silent: no audio for more than 700 ms, and none whose
/// mark has not come back.
pub open spec fn settled(s: Signals, silent_ns: u128) -> Signals {
    Signals {
        assistant_speaking: s.assistant_speaking && !(silent_ns > 700_000_000
            && s.pending_playback_marks == 0),
        ..s
    }
}

/// After a message that was of account: has the agent fallen silent?
pub fn settle(signals: &mut RealtimeSignals, silent_ns: u128)
    ensures
        final(signals)@ == settled(old(signals)@, silent_ns),
{
    if silent_ns > 700_000_000 && signals.pending_playback_marks == 0 {
        signals.assistant_speaking = false;
    }
}

// ---------------------------------------------------------------------------
// Audio of a reply
// ---------------------------------------------------------------------------

/// The samples of a piece of audio, if it is padded Base64.
pub fn decode_realtime_delta(delta: &str) -> (res: Option<Vec<i16>>)
    ensures
        res is Some <==> payload::base64_bytes(delta@) is Some,
        res matches Some(samples) ==> payload::base64_bytes(delta@) matches Some(bytes)
            && samples@ == audio::ulaw_samples(bytes),
{
    match payload::decode_base64(delta) {
        Some(bytes) => Some(audio::ulaw_bytes_to_pcm_i16(bytes.as_slice())),
        None => None,
    }
}

/// Shaped samples as a piece of audio, if there are any.
pub fn encode_realtime_audio(samples: &[i16]) -> (res: Option<String>)
    ensures
        res is Some <==> samples@.len() > 0,
        res matches Some(text) ==> text@ == payload::base64_text(audio::ulaw_codes(samples@))
            && payload::base64_bytes(text@) == Some(audio::ulaw_codes(samples@)),
{
    if samples.len() == 0 {
        return None;
    }
    let codes = audio::pcm_i16_to_ulaw(samples);
    Some(payload::encode_base64(codes.as_slice()))
}

/// A piece of audio as it is played: shaped, or as it came where nothing was
/// shaped or nothing of it is left.
pub open spec fn transformed(delta: Seq<char>, shaped: Option<Seq<i16>>) -> Seq<char> {
    match shaped {
        Some(samples) => if samples.len() > 0 {
            payload::base64_text(audio::ulaw_codes(samples))
        } else {
            delta
        },
        None => delta,
    }
}

/// A piece of audio as it is played, given its shaped samples if it could be
/// shaped.
pub fn transform_realtime_delta(delta: String, shaped: Option<Vec<i16>>) -> (res: String)
    ensures
        res@ == transformed(
            delta@,
            match shaped {
                Some(samples) => Some(samples@),
                None => None,
            },
        ),
{
    match shaped {
        Some(samples) => match encode_realtime_audio(samples.as_slice()) {
            Some(payload) => payload,
            None => delta,
        },
        None => delta,
    }
}

/// The length of a piece of audio; that of a frame where it cannot be read.
pub fn delta_ms(payload: &str) -> (res: u64)
    ensures
        payload::base64_bytes(payload@) matches Some(bytes) ==> res == audio::ulaw_ms(bytes.len()),
        payload::base64_bytes(payload@) is None ==> res == audio::MEDIA_FRAME_MS,
{
    match audio::ulaw_base64_duration_ms(payload) {
        Some(ms) => ms,
        None => audio::MEDIA_FRAME_MS as u64,
    }
}

/// What becomes of a piece of audio.
pub enum DeltaOutcome {
    /// The reply is too long: the model is to stop, and the audio is dropped.
    Cancel,
    /// The audio goes to the caller. It is the first of its reply if the reply
    /// was waited for since a time.
    Send { message: Value, asked_at: Option<u64> },
}

/// A limit is set, and this much audio reaches it.
pub open spec fn over_limit(generated_ms: int, hard_limit_ms: u64) -> bool {
    hard_limit_ms > 0 && generated_ms >= hard_limit_ms
}

/// Counts a piece of audio of reply `generation`, and lets it go out unless
/// the reply is too long.
pub fn finish_delta(
    signals: &mut RealtimeSignals,
    stream_sid: &str,
    generation: u64,
    payload: &str,
    audio_ms: u64,
    hard_limit_ms: u64,
) -> (res: DeltaOutcome)
    requires
        old(signals).generated_audio_ms + audio_ms <= u64::MAX,
    ensures
        res is Cancel <==> over_limit(old(signals).generated_audio_ms + audio_ms, hard_limit_ms),
        res matches DeltaOutcome::Send { message, asked_at } ==> {
            &&& json::json_tree(message) == twilio::media_tree(
                stream_sid@,
                generation,
                audio_ms,
                payload@,
            )
            &&& asked_at is Some <==> old(signals)@.awaits(generation)
            &&& asked_at matches Some(at) ==> old(signals)@.response_requested_at == Some(
                (generation, at),
            )
        },
        final(signals)@ == if res is Cancel {
            Signals {
                generated_audio_ms: (old(signals).generated_audio_ms + audio_ms) as u64,
                response_active: false,
                active_response_id: None,
                ..old(signals)@
            }
        } else {
            old(signals)@.generated(generation, audio_ms)
        },
{
    let generated_ms: u64 = signals.generated_audio_ms + audio_ms;
    signals.generated_audio_ms = generated_ms;
    if hard_limit_ms > 0 && generated_ms >= hard_limit_ms {
        signals.response_active = false;
        signals.active_response_id = None;
        return DeltaOutcome::Cancel;
    }
    let asked_at = signals.first_audio(generation);
    let message = twilio::media_message(stream_sid, generation, audio_ms, payload);
    DeltaOutcome::Send { message, asked_at }
}

// ---------------------------------------------------------------------------
// Laws
// ---------------------------------------------------------------------------

/// A caller who speaks again during the wait is not answered: the turn that
/// ended before is never due once another has begun.
pub proof fn law_resumed_speech_is_not_answered(s: Signals, audio_start_ms: u64)
    ensures
        !answer_due(caller_started(s, audio_start_ms), s.user_speech_generation),
{
}

/// A turn is answered at most once: when a reply was asked for, the same turn
/// is not due again while that reply is under way.
pub proof fn law_turn_is_answered_once(s: Signals, now_ms: u64, stopped_generation: u64)
    ensures
        !answer_due(asked(s, now_ms), stopped_generation),
{
}

/// Asking for a reply, and a caller who overtakes one, make all audio of the
/// reply before stale.
pub proof fn law_next_reply_makes_audio_stale(s: Signals, now_ms: u64, audio_start_ms: u64)
    ensures
        asked(s, now_ms).response_generation != s.response_generation,
        overtaken(s) ==> caller_started(s, audio_start_ms).response_generation
            != s.response_generation,
        asked(s, now_ms).awaits(asked(s, now_ms).response_generation),
{
}

/// Audio that is decoded and encoded again without being shaped keeps each of
/// its samples.
pub proof fn law_unshaped_audio_is_kept(bytes: Seq<u8>, i: int)
    requires
        0 <= i < bytes.len(),
    ensures
        audio::ulaw_codes(audio::ulaw_samples(bytes)).len() == bytes.len(),
        audio::ulaw_value(audio::ulaw_codes(audio::ulaw_samples(bytes))[i]) == audio::ulaw_value(
            bytes[i],
        ),
{
    audio::law_ulaw_codes_survive(bytes[i]);
}

/// A turn after which the caller did not speak again is answered, if no reply
/// is under way, whatever else the parts of the call know; any other is not.
/// The reply has the next number and is waited for from now on, the caller
/// counts as not having interrupted it, and none of its audio was made, queued
/// or played.
pub proof fn law_ended_turn_is_answered(s: Signals, stopped_generation: u64, now_ms: u64)
    ensures
        answer_due(s, stopped_generation) <==> s.user_speech_generation == stopped_generation
            && s.response_active == false,
        ({
            let after = asked(s, now_ms);
            &&& s.response_generation < u64::MAX ==> after.response_generation
                == s.response_generation + 1
            &&& after.response_active
            &&& !after.interrupted
            &&& after.active_response_id is None
            &&& after.response_requested_at == Some((after.response_generation, now_ms))
            &&& after.generated_audio_ms == 0
            &&& after.played_audio_ms == 0
            &&& after.queued_audio_ms == 0
            &&& after.assistant_speaking == s.assistant_speaking
            &&& after.pending_playback_marks == s.pending_playback_marks
            &&& after.user_speech_generation == s.user_speech_generation
            &&& after.current_turn_speech_ms == s.current_turn_speech_ms
            &&& after.openai_speech_started_ms == s.openai_speech_started_ms
        }),
{
}

/// Two signals decide whether a turn is answered: two states that agree on the
/// number of turns and on whether a reply is under way answer the same turns.
pub proof fn law_other_signals_do_not_delay_the_answer(
    s: Signals,
    other: Signals,
    stopped_generation: u64,
)
    requires
        s.user_speech_generation == other.user_speech_generation,
        s.response_active == other.response_active,
    ensures
        answer_due(s, stopped_generation) == answer_due(other, stopped_generation),
{
}

/// The story of a turn: whatever was played before, when a reply is done, the
/// caller speaks for at least as long as it takes and then no more, the turn is
/// answered after the wait that its length asks for.
pub proof fn law_turn_after_a_reply_is_answered(
    s: Signals,
    audio_start_ms: u64,
    audio_end_ms: u64,
    turn: TurnTakingConfig,
)
    requires
        s.user_speech_generation < u64::MAX,
        audio_start_ms + turn.min_response_speech_ms <= audio_end_ms,
        audio_start_ms <= audio_end_ms,
    ensures
        ({
            let done = after_news(s, ModelNews::ResponseDone);
            let started = after_news(done, ModelNews::SpeechStarted { audio_start_ms });
            let stop = ModelNews::SpeechStopped { audio_end_ms: Some(audio_end_ms) };
            let stopped = after_news(started, stop);
            let ms = (audio_end_ms - audio_start_ms) as u64;
            &&& reaction(done, ModelNews::SpeechStarted { audio_start_ms }, turn)
                == Reaction::Nothing
            &&& reaction(started, stop, turn) == (Reaction::AwaitGrace {
                stopped_generation: (s.user_speech_generation + 1) as u64,
                turn_speech_ms: ms,
                grace_ms: if ms < 600 {
                    turn.short_turn_grace_ms
                } else if ms < 1500 {
                    turn.normal_turn_grace_ms
                } else {
                    turn.long_turn_grace_ms
                },
            })
            &&& answer_due(stopped, (s.user_speech_generation + 1) as u64)
            &&& !answer_due(stopped, s.user_speech_generation)
        }),
{
}

/// A turn that is shorter than it takes is not answered, and one whose end is
/// not known counts as having no length.
pub proof fn law_short_turn_is_skipped(
    s: Signals,
    audio_end_ms: Option<u64>,
    turn: TurnTakingConfig,
)
    ensures
        ({
            let stop = ModelNews::SpeechStopped { audio_end_ms };
            let long_enough = match audio_end_ms {
                Some(end) => end - s.openai_speech_started_ms >= turn.min_response_speech_ms,
                None => false,
            };
            &&& turn.min_response_speech_ms > 0 ==> (reaction(s, stop, turn) == Reaction::Skip
                <==> !long_enough)
            &&& turn.min_response_speech_ms == 0 ==> reaction(s, stop, turn) != Reaction::Skip
        }),
{
}

/// The wait after a turn goes by its length in three steps: under 600
/// milliseconds, under 1500, and from there on.
pub proof fn law_grace_goes_by_length(turn_speech_ms: u64, turn: TurnTakingConfig)
    ensures
        turn_speech_ms < 600 ==> grace(turn_speech_ms, turn) == turn.short_turn_grace_ms,
        600 <= turn_speech_ms < 1500 ==> grace(turn_speech_ms, turn) == turn.normal_turn_grace_ms,
        1500 <= turn_speech_ms ==> grace(turn_speech_ms, turn) == turn.long_turn_grace_ms,
{
}

/// The length of a turn is the time from its start to its end, and none where
/// the end is not known or not after the start.
pub proof fn law_turn_length(start_ms: u64, length_ms: u64, end_ms: u64)
    ensures
        start_ms + length_ms <= u64::MAX ==> turn_ms(Some((start_ms + length_ms) as u64), start_ms)
            == length_ms,
        end_ms <= start_ms ==> turn_ms(Some(end_ms), start_ms) == 0,
        turn_ms(None, start_ms) == 0,
{
}

/// A caller who begins to speak begins the next turn, of which nothing was heard
/// yet. A reply that is under way and of which nothing is heard is given up, and
/// the model is told so; the signals of one that is heard, and all other
/// signals, stay as they are.
pub proof fn law_caller_begins_a_turn(s: Signals, audio_start_ms: u64, turn: TurnTakingConfig)
    requires
        s.user_speech_generation < u64::MAX,
        s.response_generation < u64::MAX,
    ensures
        ({
            let news = ModelNews::SpeechStarted { audio_start_ms };
            let after = after_news(s, news);
            let unheard = s.response_active && !s.assistant_speaking;
            &&& after == caller_started(s, audio_start_ms)
            &&& after.user_speech_generation == s.user_speech_generation + 1
            &&& after.current_turn_speech_ms == 0
            &&& after.openai_speech_started_ms == audio_start_ms
            &&& reaction(s, news, turn) == if unheard {
                Reaction::Cancel
            } else {
                Reaction::Nothing
            }
            &&& unheard ==> {
                &&& after.response_generation == s.response_generation + 1
                &&& !after.response_active
                &&& after.response_requested_at is None
                &&& after.active_response_id is None
            }
            &&& !unheard ==> {
                &&& after.response_generation == s.response_generation
                &&& after.response_active == s.response_active
                &&& after.response_requested_at == s.response_requested_at
                &&& after.active_response_id == s.active_response_id
            }
            &&& after.assistant_speaking == s.assistant_speaking
            &&& after.interrupted == s.interrupted
            &&& after.pending_playback_marks == s.pending_playback_marks
            &&& after.generated_audio_ms == s.generated_audio_ms
            &&& after.played_audio_ms == s.played_audio_ms
            &&& after.queued_audio_ms == s.queued_audio_ms
        }),
{
}

/// Audio is played with the number of the reply that may be heard, as it came,
/// unless it is known to belong to another reply than the one under way. The
/// first audio names the reply, if none is named yet.
pub proof fn law_audio_of_the_reply_is_played(
    s: Signals,
    delta: Seq<char>,
    response_id: Option<Seq<char>>,
    turn: TurnTakingConfig,
)
    ensures
        ({
            let news = ModelNews::AudioDelta { delta: Some(delta), response_id };
            let after = after_news(s, news);
            let play = Reaction::Play { delta, generation: s.response_generation };
            &&& s.active_response_id is None ==> reaction(s, news, turn) == play
            &&& response_id is None ==> reaction(s, news, turn) == play
            &&& s.active_response_id == response_id ==> reaction(s, news, turn) == play
            &&& s.active_response_id is Some && response_id is Some && s.active_response_id
                != response_id ==> reaction(s, news, turn) == Reaction::Skip
            &&& s.active_response_id is Some ==> after == s
            &&& s.active_response_id is None ==> after.active_response_id == response_id
            &&& (Signals { active_response_id: s.active_response_id, ..after }) == s
        }),
{
}

/// A reply that has begun is under way, under the name it came with, if it came
/// with one. When it is done, cancelled or failed, none is under way, none is
/// waited for and none is named; the agent is silent at once when it was
/// cancelled, and when it is done as soon as no mark is pending.
pub proof fn law_replies_begin_and_end(s: Signals, response_id: Option<Seq<char>>)
    ensures
        ({
            let begun = after_news(s, ModelNews::ResponseCreated { response_id });
            let done = after_news(s, ModelNews::ResponseDone);
            let cancelled = after_news(s, ModelNews::ResponseCancelled);
            let failed = after_news(s, ModelNews::Failure);
            &&& begun.response_active
            &&& response_id is Some ==> begun.active_response_id == response_id
            &&& response_id is None ==> begun.active_response_id == s.active_response_id
            &&& (Signals {
                response_active: s.response_active,
                active_response_id: s.active_response_id,
                ..begun
            }) == s
            &&& failed == (Signals {
                response_active: false,
                response_requested_at: None,
                active_response_id: None,
                ..s
            })
            &&& cancelled == (Signals {
                assistant_speaking: false,
                pending_playback_marks: 0,
                ..failed
            })
            &&& s.pending_playback_marks > 0 ==> done == failed
            &&& s.pending_playback_marks == 0 ==> done == (Signals {
                assistant_speaking: false,
                ..failed
            })
        }),
{
}

/// What was said is recorded as it came, and what is only written down, or of no
/// account, leaves the signals as they are.
pub proof fn law_transcripts_are_recorded(s: Signals, text: Seq<char>, turn: TurnTakingConfig)
    ensures
        reaction(s, ModelNews::UserTranscript { text: Some(text) }, turn)
            == (Reaction::RecordUser { text }),
        reaction(s, ModelNews::AssistantTranscript { text: Some(text) }, turn)
            == (Reaction::RecordAssistant { text }),
        reaction(s, ModelNews::UserTranscript { text: None }, turn) == Reaction::Nothing,
        reaction(s, ModelNews::AssistantTranscript { text: None }, turn) == Reaction::Nothing,
        reaction(s, ModelNews::Other, turn) == Reaction::Nothing,
        after_news(s, ModelNews::UserTranscript { text: Some(text) }) == s,
        after_news(s, ModelNews::AssistantTranscript { text: Some(text) }) == s,
        after_news(s, ModelNews::UserTranscript { text: None }) == s,
        after_news(s, ModelNews::AssistantTranscript { text: None }) == s,
        after_news(s, ModelNews::Other) == s,
{
}

/// The voice of a reply is made when the reply begins and forgotten when it
/// ends, however it ends.
pub proof fn law_voice_lasts_as_long_as_the_reply(
    s: Signals,
    response_id: Option<Seq<char>>,
    turn: TurnTakingConfig,
)
    ensures
        reaction(s, ModelNews::ResponseCreated { response_id }, turn) == Reaction::NewVoice,
        reaction(s, ModelNews::ResponseDone, turn) == Reaction::DropVoice,
        reaction(s, ModelNews::ResponseCancelled, turn) == Reaction::DropVoice,
        reaction(s, ModelNews::Failure, turn) == Reaction::DropVoice,
{
}

/// The agent falls silent after more than seven tenths of a second without
/// audio, if no mark is pending, and not otherwise. Nothing else changes.
pub proof fn law_agent_falls_silent(s: Signals, silent_ns: u128)
    ensures
        s.pending_playback_marks > 0 ==> settled(s, silent_ns) == s,
        silent_ns <= 700_000_000 ==> settled(s, silent_ns) == s,
        s.pending_playback_marks == 0 && silent_ns > 700_000_000 ==> settled(s, silent_ns) == (
        Signals { assistant_speaking: false, ..s }),
{
}

/// A limit of nought is none. Any other is reached by as much audio as it says
/// and by no less.
pub proof fn law_limit_is_reached(generated_ms: int, hard_limit_ms: u64)
    requires
        generated_ms >= 0,
    ensures
        !over_limit(generated_ms, 0),
        hard_limit_ms > 0 ==> over_limit(hard_limit_ms as int, hard_limit_ms),
        hard_limit_ms > 0 ==> !over_limit(hard_limit_ms - 1, hard_limit_ms),
        over_limit(generated_ms, hard_limit_ms) ==> over_limit(generated_ms + 1, hard_limit_ms),
{
}

/// What the model is told can be read back: the caller's audio as it came, the
/// demand to stop, and the demand for a reply with its instructions and its
/// limit, to be spoken and written.
pub proof fn law_model_is_told(payload: Seq<char>, instructions: Seq<char>, max_tokens: u32)
    ensures
        append_tree(payload).text_at("type"@) == Some("input_audio_buffer.append"@),
        append_tree(payload).text_at("audio"@) == Some(payload),
        cancel_tree().text_at("type"@) == Some("response.cancel"@),
        ({
            let tree = create_tree(instructions, max_tokens);
            &&& tree.text_at("type"@) == Some("response.create"@)
            &&& tree.text_in("response"@, "instructions"@) == Some(instructions)
            &&& tree.member("response"@) matches Some(response) && {
                &&& response.unsigned_at("max_output_tokens"@) == Some(max_tokens as u64)
                &&& response.member("modalities"@) matches Some(list) && {
                    &&& list.element(0) == Some(JsonTree::Text("audio"@))
                    &&& list.element(1) == Some(JsonTree::Text("text"@))
                    &&& list.element(2) is None
                }
            }
        }),
{
    reveal_strlit("type");
    reveal_strlit("audio");
    reveal_strlit("response");
    reveal_strlit("modalities");
    reveal_strlit("instructions");
    reveal_strlit("max_output_tokens");
    assert("type"@.len() == 4);
    assert("audio"@.len() == 5);
    assert("response"@.len() == 8);
    assert("modalities"@.len() == 10);
    assert("instructions"@.len() == 12);
    assert("max_output_tokens"@.len() == 17);
    let append = seq![
        ("type"@, JsonTree::Text("input_audio_buffer.append"@)),
        ("audio"@, JsonTree::Text(payload)),
    ];
    json::law_object_holds_its_entries(append, 0);
    json::law_object_holds_its_entries(append, 1);
    let cancel = seq![("type"@, JsonTree::Text("response.cancel"@))];
    json::law_object_holds_its_entries(cancel, 0);
    let response = seq![
        ("modalities"@, modalities()),
        ("instructions"@, JsonTree::Text(instructions)),
        ("max_output_tokens"@, JsonTree::Unsigned(max_tokens as u64)),
    ];
    json::law_object_holds_its_entries(response, 0);
    json::law_object_holds_its_entries(response, 1);
    json::law_object_holds_its_entries(response, 2);
    let create = seq![
        ("type"@, JsonTree::Text("response.create"@)),
        ("response"@, json::object(response)),
    ];
    json::law_object_holds_its_entries(create, 0);
    json::law_object_holds_its_entries(create, 1);
}

/// The settings of a session can be read back: the voice and the instructions as
/// they are set, mu-law audio both ways, and a detection of turns that neither
/// answers nor interrupts by itself, with the lengths that are set.
pub proof fn law_session_is_set(state: AppState, threshold: JsonTree, temperature: JsonTree)
    ensures
        ({
            let tree = session_tree(state, threshold, temperature);
            &&& tree.text_at("voice"@) == Some(state.openai_voice@)
            &&& tree.text_at("instructions"@) == Some(state.persona_instructions@)
            &&& tree.text_at("input_audio_format"@) == Some("g711_ulaw"@)
            &&& tree.text_at("output_audio_format"@) == Some("g711_ulaw"@)
            &&& tree.member("temperature"@) == Some(temperature)
            &&& tree.member("modalities"@) matches Some(list) && list.element(0) == Some(
                JsonTree::Text("audio"@),
            ) && list.element(1) == Some(JsonTree::Text("text"@))
            &&& tree.member("turn_detection"@) matches Some(detection) && {
                &&& detection.text_at("type"@) == Some("server_vad"@)
                &&& detection.member("threshold"@) == Some(threshold)
                &&& detection.unsigned_at("prefix_padding_ms"@) == Some(
                    state.turn.vad_prefix_padding_ms as u64,
                )
                &&& detection.unsigned_at("silence_duration_ms"@) == Some(
                    state.turn.vad_silence_duration_ms as u64,
                )
                &&& detection.flag_at("create_response"@) == Some(false)
                &&& detection.flag_at("interrupt_response"@) == Some(false)
            }
        }),
{
    reveal_strlit("modalities");
    reveal_strlit("voice");
    reveal_strlit("instructions");
    reveal_strlit("input_audio_format");
    reveal_strlit("output_audio_format");
    reveal_strlit("turn_detection");
    reveal_strlit("temperature");
    reveal_strlit("type");
    reveal_strlit("threshold");
    reveal_strlit("prefix_padding_ms");
    reveal_strlit("silence_duration_ms");
    reveal_strlit("create_response");
    reveal_strlit("interrupt_response");
    assert("modalities"@.len() == 10);
    assert("voice"@.len() == 5);
    assert("instructions"@.len() == 12);
    assert("input_audio_format"@.len() == 18);
    assert("output_audio_format"@.len() == 19);
    assert("turn_detection"@.len() == 14);
    assert("temperature"@.len() == 11);
    assert("type"@.len() == 4);
    assert("threshold"@.len() == 9);
    assert("prefix_padding_ms"@.len() == 17);
    assert("silence_duration_ms"@.len() == 19);
    assert("create_response"@.len() == 15);
    assert("interrupt_response"@.len() == 18);
    let turn = state.turn;
    let detection = seq![
        ("type"@, JsonTree::Text(OPENAI_TURN_DETECTION@)),
        ("threshold"@, threshold),
        ("prefix_padding_ms"@, JsonTree::Unsigned(turn.vad_prefix_padding_ms as u64)),
        ("silence_duration_ms"@, JsonTree::Unsigned(turn.vad_silence_duration_ms as u64)),
        ("create_response"@, JsonTree::Bool(false)),
        ("interrupt_response"@, JsonTree::Bool(false)),
    ];
    json::law_object_holds_its_entries(detection, 0);
    json::law_object_holds_its_entries(detection, 1);
    json::law_object_holds_its_entries(detection, 2);
    json::law_object_holds_its_entries(detection, 3);
    json::law_object_holds_its_entries(detection, 4);
    json::law_object_holds_its_entries(detection, 5);
    let entries = seq![
        ("modalities"@, modalities()),
        ("voice"@, JsonTree::Text(state.openai_voice@)),
        ("instructions"@, JsonTree::Text(state.persona_instructions@)),
        ("input_audio_format"@, JsonTree::Text("g711_ulaw"@)),
        ("output_audio_format"@, JsonTree::Text("g711_ulaw"@)),
        ("turn_detection"@, json::object(detection)),
        ("temperature"@, temperature),
    ];
    json::law_object_holds_its_entries(entries, 0);
    json::law_object_holds_its_entries(entries, 1);
    json::law_object_holds_its_entries(entries, 2);
    json::law_object_holds_its_entries(entries, 3);
    json::law_object_holds_its_entries(entries, 4);
    json::law_object_holds_its_entries(entries, 5);
    json::law_object_holds_its_entries(entries, 6);
}

proof fn lemma_model_kinds_differ()
    ensures
        "response.created"@ != "input_audio_buffer.speech_started"@,
        "response.created"@ != "input_audio_buffer.speech_stopped"@,
        "response.created"@ != "response.audio.delta"@,
        "response.created"@ != "response.done"@,
        "response.created"@ != "conversation.item.input_audio_transcription.completed"@,
        "response.created"@ != "response.audio_transcript.done"@,
        "response.created"@ != "response.output_text.done"@,
        "response.created"@ != "response.cancelled"@,
        "response.created"@ != "error"@,
        "input_audio_buffer.speech_started"@ != "input_audio_buffer.speech_stopped"@,
        "input_audio_buffer.speech_started"@ != "response.audio.delta"@,
        "input_audio_buffer.speech_started"@ != "response.done"@,
        "input_audio_buffer.speech_started"@
            != "conversation.item.input_audio_transcription.completed"@,
        "input_audio_buffer.speech_started"@ != "response.audio_transcript.done"@,
        "input_audio_buffer.speech_started"@ != "response.output_text.done"@,
        "input_audio_buffer.speech_started"@ != "response.cancelled"@,
        "input_audio_buffer.speech_started"@ != "error"@,
        "input_audio_buffer.speech_stopped"@ != "response.audio.delta"@,
        "input_audio_buffer.speech_stopped"@ != "response.done"@,
        "input_audio_buffer.speech_stopped"@
            != "conversation.item.input_audio_transcription.completed"@,
        "input_audio_buffer.speech_stopped"@ != "response.audio_transcript.done"@,
        "input_audio_buffer.speech_stopped"@ != "response.output_text.done"@,
        "input_audio_buffer.speech_stopped"@ != "response.cancelled"@,
        "input_audio_buffer.speech_stopped"@ != "error"@,
        "response.audio.delta"@ != "response.done"@,
        "response.audio.delta"@ != "conversation.item.input_audio_transcription.completed"@,
        "response.audio.delta"@ != "response.audio_transcript.done"@,
        "response.audio.delta"@ != "response.output_text.done"@,
        "response.audio.delta"@ != "response.cancelled"@,
        "response.audio.delta"@ != "error"@,
        "response.done"@ != "conversation.item.input_audio_transcription.completed"@,
        "response.done"@ != "response.audio_transcript.done"@,
        "response.done"@ != "response.output_text.done"@,
        "response.done"@ != "response.cancelled"@,
        "response.done"@ != "error"@,
        "conversation.item.input_audio_transcription.completed"@
            != "response.audio_transcript.done"@,
        "conversation.item.input_audio_transcription.completed"@ != "response.output_text.done"@,
        "conversation.item.input_audio_transcription.completed"@ != "response.cancelled"@,
        "conversation.item.input_audio_transcription.completed"@ != "error"@,
        "response.audio_transcript.done"@ != "response.cancelled"@,
        "response.audio_transcript.done"@ != "error"@,
        "response.output_text.done"@ != "response.cancelled"@,
        "response.output_text.done"@ != "error"@,
        "response.cancelled"@ != "error"@,
{
    reveal_strlit("response.created");
    reveal_strlit("input_audio_buffer.speech_started");
    reveal_strlit("input_audio_buffer.speech_stopped");
    reveal_strlit("response.audio.delta");
    reveal_strlit("response.done");
    reveal_strlit("conversation.item.input_audio_transcription.completed");
    reveal_strlit("response.audio_transcript.done");
    reveal_strlit("response.output_text.done");
    reveal_strlit("response.cancelled");
    reveal_strlit("error");
    assert("response.created"@.len() == 16);
    assert("input_audio_buffer.speech_started"@.len() == 33);
    assert("input_audio_buffer.speech_stopped"@.len() == 33);
    assert("input_audio_buffer.speech_started"@[28] == 'a');
    assert("input_audio_buffer.speech_stopped"@[28] == 'o');
    assert("response.audio.delta"@.len() == 20);
    assert("response.done"@.len() == 13);
    assert("conversation.item.input_audio_transcription.completed"@.len() == 53);
    assert("response.audio_transcript.done"@.len() == 30);
    assert("response.output_text.done"@.len() == 25);
    assert("response.cancelled"@.len() == 18);
    assert("error"@.len() == 5);
}

/// A message of the model says by its `type` what it is, and what it brings is
/// taken as it stands: the name of a reply, from the message itself or else from
/// its `response`; where speech begins, from nought where it does not say, and
/// where it ends; audio; and what was said. Any other message is of no account.
pub proof fn law_model_messages_are_read(tree: JsonTree)
    ensures
        ({
            let kind = tree.text_at("type"@);
            let news = model_news_in(tree);
            let id = if tree.text_at("response_id"@) is Some {
                tree.text_at("response_id"@)
            } else {
                tree.text_in("response"@, "id"@)
            };
            let said = if tree.member("transcript"@) is Some {
                tree.text_at("transcript"@)
            } else {
                tree.text_at("text"@)
            };
            let start = tree.unsigned_at("audio_start_ms"@);
            &&& kind == Some("response.created"@) ==> news == (ModelNews::ResponseCreated {
                response_id: id,
            })
            &&& kind == Some("input_audio_buffer.speech_started"@) ==> news == (
            ModelNews::SpeechStarted {
                audio_start_ms: if start is Some {
                    start->0
                } else {
                    0
                },
            })
            &&& kind == Some("input_audio_buffer.speech_stopped"@) ==> news == (
            ModelNews::SpeechStopped { audio_end_ms: tree.unsigned_at("audio_end_ms"@) })
            &&& kind == Some("response.audio.delta"@) ==> news == (ModelNews::AudioDelta {
                delta: tree.text_at("delta"@),
                response_id: id,
            })
            &&& kind == Some("response.done"@) ==> news == ModelNews::ResponseDone
            &&& kind == Some("conversation.item.input_audio_transcription.completed"@) ==> news
                == (ModelNews::UserTranscript { text: tree.text_at("transcript"@) })
            &&& kind == Some("response.audio_transcript.done"@) || kind == Some(
                "response.output_text.done"@,
            ) ==> news == (ModelNews::AssistantTranscript { text: said })
            &&& kind == Some("response.cancelled"@) ==> news == ModelNews::ResponseCancelled
            &&& kind == Some("error"@) ==> news == ModelNews::Failure
            &&& kind is None ==> news == ModelNews::Other
            &&& news != ModelNews::Other ==> kind == Some("response.created"@) || kind == Some(
                "input_audio_buffer.speech_started"@,
            ) || kind == Some("input_audio_buffer.speech_stopped"@) || kind == Some(
                "response.audio.delta"@,
            ) || kind == Some("response.done"@) || kind == Some(
                "conversation.item.input_audio_transcription.completed"@,
            ) || kind == Some("response.audio_transcript.done"@) || kind == Some(
                "response.output_text.done"@,
            ) || kind == Some("response.cancelled"@) || kind == Some("error"@)
        }),
{
    lemma_model_kinds_differ();
}

/// Audio that was shaped is played as it was shaped, each sample by its code;
/// audio that was not, and audio of which nothing is left, is played as it came.
pub proof fn law_shaped_audio_is_played(delta: Seq<char>, samples: Seq<i16>)
    ensures
        transformed(delta, None) == delta,
        samples.len() == 0 ==> transformed(delta, Some(samples)) == delta,
        samples.len() > 0 ==> transformed(delta, Some(samples)) == payload::base64_text(
            audio::ulaw_codes(samples),
        ),
{
}

/// When the wait after a turn is over, a reply is asked for where the caller has
/// not begun another turn and no reply is under way, whatever else the parts of
/// the call know: it has the next number, it is under way, and it is waited for
/// from now on. Otherwise none is asked for, and nothing changes.
pub proof fn law_grace_over(
    signals: &mut RealtimeSignals,
    stopped_generation: u64,
    now_ms: u64,
    res: Option<u64>,
)
    requires
        call_ensures(grace_over, (signals, stopped_generation, now_ms), res),
    ensures
        old(signals).user_speech_generation == stopped_generation && !old(signals).response_active
            && old(signals).response_generation < u64::MAX ==> {
            let next = (old(signals).response_generation + 1) as u64;
            &&& res == Some(next)
            &&& final(signals)@ == (Signals {
                response_generation: next,
                response_active: true,
                response_requested_at: Some((next, now_ms)),
                active_response_id: None,
                interrupted: false,
                generated_audio_ms: 0,
                played_audio_ms: 0,
                queued_audio_ms: 0,
                ..old(signals)@
            })
        },
        old(signals).user_speech_generation != stopped_generation || old(signals).response_active
            ==> res is None && final(signals)@ == old(signals)@,
{
}

/// A caller who begins to speak gives up a reply that is under way and not heard
/// yet, and only such a reply.
pub proof fn law_speech_started(signals: &mut RealtimeSignals, audio_start_ms: u64, res: bool)
    requires
        call_ensures(speech_started, (signals, audio_start_ms), res),
        old(signals).user_speech_generation < u64::MAX,
        old(signals).response_generation < u64::MAX,
    ensures
        res <==> old(signals).response_active && !old(signals).assistant_speaking,
        !res ==> final(signals)@ == (Signals {
            user_speech_generation: (old(signals).user_speech_generation + 1) as u64,
            current_turn_speech_ms: 0,
            openai_speech_started_ms: audio_start_ms,
            ..old(signals)@
        }),
        res ==> final(signals)@ == (Signals {
            user_speech_generation: (old(signals).user_speech_generation + 1) as u64,
            current_turn_speech_ms: 0,
            openai_speech_started_ms: audio_start_ms,
            response_generation: (old(signals).response_generation + 1) as u64,
            response_active: false,
            response_requested_at: None,
            active_response_id: None,
            ..old(signals)@
        }),
{
}

/// A piece of audio is counted with its whole length. It goes to the caller as it
/// is, unless a limit is set and reached: then the reply is over, and the audio is
/// dropped. The first piece of a reply that is waited for ends the wait.
pub proof fn law_finish_delta(
    signals: &mut RealtimeSignals,
    stream_sid: &str,
    generation: u64,
    payload: &str,
    audio_ms: u64,
    hard_limit_ms: u64,
    res: DeltaOutcome,
)
    requires
        old(signals).generated_audio_ms + audio_ms <= u64::MAX,
        call_ensures(
            finish_delta,
            (signals, stream_sid, generation, payload, audio_ms, hard_limit_ms),
            res,
        ),
    ensures
        ({
            let all_ms = old(signals).generated_audio_ms + audio_ms;
            let asked = old(signals)@.response_requested_at;
            let first = asked matches Some(when) && when.0 == generation;
            &&& hard_limit_ms == 0 || all_ms < hard_limit_ms <==> res is Send
            &&& hard_limit_ms > 0 && all_ms >= hard_limit_ms <==> res is Cancel
            &&& final(signals).generated_audio_ms == all_ms
            &&& res is Cancel ==> final(signals)@ == (Signals {
                generated_audio_ms: all_ms as u64,
                response_active: false,
                active_response_id: None,
                ..old(signals)@
            })
            &&& res is Send && first ==> final(signals)@ == (Signals {
                generated_audio_ms: all_ms as u64,
                response_requested_at: None,
                ..old(signals)@
            })
            &&& res is Send && !first ==> final(signals)@ == (Signals {
                generated_audio_ms: all_ms as u64,
                ..old(signals)@
            })
            &&& res is Send && first ==> res->asked_at == Some((asked->0).1)
            &&& res is Send && !first ==> res->asked_at is None
            &&& res is Send ==> json::json_tree(res->message).text_in("media"@, "payload"@) == Some(
                payload@,
            )
            &&& res is Send ==> json::json_tree(res->message).unsigned_at("generation"@) == Some(
                generation,
            )
            &&& res is Send ==> json::json_tree(res->message).unsigned_at("audio_ms"@) == Some(
                audio_ms,
            )
            &&& res is Send ==> json::json_tree(res->message).text_at("streamSid"@) == Some(
                stream_sid@,
            )
        }),
{
    twilio::law_messages_for_the_caller(stream_sid@, generation, audio_ms, payload@);
}

/// A piece of audio lasts a millisecond for eight of its bytes, and twenty
/// milliseconds where it cannot be read.
pub proof fn law_delta_ms(payload: &str, res: u64)
    requires
        call_ensures(delta_ms, (payload,), res),
    ensures
        payload::base64_bytes(payload@) matches Some(bytes) ==> 8 * res <= bytes.len() < 8 * res
            + 8,
        payload::base64_bytes(payload@) is None ==> res == 20,
{
}

/// A message is heard exactly where it is JSON, and what it says is then told by
/// that JSON alone.
pub proof fn law_read_realtime_event(text: &str, tree: JsonTree, res: Option<RealtimeEvent>)
    requires
        call_ensures(read_realtime_event, (text,), res),
    ensures
        json::json_of_text(text@) is None ==> res is None,
        json::json_of_text(text@) == Some(tree) ==> res is Some,
        json::json_of_text(text@) == Some(tree) && tree.text_at("type"@) == Some(
            "response.audio.delta"@,
        ) ==> (res->0@ matches ModelNews::AudioDelta { delta, .. } && delta == tree.text_at(
            "delta"@,
        )),
        json::json_of_text(text@) == Some(tree) && tree.text_at("type"@) == Some("response.done"@)
            ==> res->0@ == ModelNews::ResponseDone,
        json::json_of_text(text@) == Some(tree) && tree.text_at("type"@) == Some(
            "input_audio_buffer.speech_stopped"@,
        ) ==> res->0@ == (ModelNews::SpeechStopped {
            audio_end_ms: tree.unsigned_at("audio_end_ms"@),
        }),
{
    lemma_model_kinds_differ();
}

/// When the caller stops speaking, nothing changes, and a turn that was as long as
/// it takes is answered after a wait, under the number it has now; a shorter one is
/// not. Audio of the reply under way, or of one that is not named, is played as it
/// came, under the number of the reply that may be heard. A reply that is done is
/// under way no more.
pub proof fn law_hear_model(
    signals: &mut RealtimeSignals,
    event: RealtimeEvent,
    turn: &TurnTakingConfig,
    res: RealtimeAction,
)
    requires
        call_ensures(hear_model, (signals, event, turn), res),
    ensures
        event@ matches ModelNews::SpeechStopped { audio_end_ms } ==> {
            let long_enough = audio_end_ms matches Some(end) && end
                - old(signals).openai_speech_started_ms >= turn.min_response_speech_ms;
            &&& final(signals)@ == old(signals)@
            &&& long_enough ==> {
                &&& res@ is AwaitGrace
                &&& res@->stopped_generation == old(signals).user_speech_generation
                &&& audio_end_ms->0 >= old(signals).openai_speech_started_ms
                    ==> res@->turn_speech_ms == audio_end_ms->0
                    - old(signals).openai_speech_started_ms
            }
            &&& !long_enough && turn.min_response_speech_ms > 0 ==> res@ is Skip
        },
        event@ matches ModelNews::AudioDelta { delta: Some(delta), response_id } ==> {
            &&& response_id is None || old(signals)@.active_response_id is None
                || old(signals)@.active_response_id == response_id ==> res@ == (Reaction::Play {
                delta,
                generation: old(signals).response_generation,
            })
            &&& response_id is Some && old(signals)@.active_response_id is Some
                && old(signals)@.active_response_id != response_id ==> res@ is Skip
        },
        event@ is ResponseDone || event@ is ResponseCancelled || event@ is Failure ==> {
            &&& res@ is DropVoice
            &&& !final(signals).response_active
            &&& final(signals)@.active_response_id is None
            &&& final(signals)@.response_requested_at is None
        },
        event@ is ResponseCreated ==> res@ is NewVoice && final(signals).response_active,
        event@ matches ModelNews::UserTranscript { text: Some(text) } ==> res@ == (
        Reaction::RecordUser { text }),
        event@ matches ModelNews::AssistantTranscript { text: Some(text) } ==> res@ == (
        Reaction::RecordAssistant { text }),
{
}

/// The agent falls silent after more than seven tenths of a second without audio,
/// if no mark is pending, whatever else the parts of the call know.
pub proof fn law_settle(signals: &mut RealtimeSignals, silent_ns: u128)
    requires
        call_ensures(settle, (signals, silent_ns), ()),
    ensures
        silent_ns > 700_000_000 && old(signals).pending_playback_marks == 0
            ==> !final(signals).assistant_speaking,
        silent_ns <= 700_000_000 || old(signals).pending_playback_marks > 0
            ==> final(signals).assistant_speaking == old(signals).assistant_speaking,
        (Signals { assistant_speaking: old(signals).assistant_speaking, ..final(signals)@ })
            == old(signals)@,
{
}

/// The demand for a reply tells the instructions that are set, and leaves as many
/// tokens as the backlog does.
pub proof fn law_create_response(state: &AppState, backlog_ms: u64, res: Value)
    requires
        call_ensures(create_response, (state, backlog_ms), res),
    ensures
        ({
            let tree = json::json_tree(res);
            let told = tree.text_in("response"@, "instructions"@);
            let most = state.max_response_tokens;
            &&& tree.text_at("type"@) == Some("response.create"@)
            &&& told is Some && text::starts_with(told->0, state.response_instructions@)
            &&& tree.member("response"@) matches Some(response) && response.unsigned_at(
                "max_output_tokens"@,
            ) == Some(
                if backlog_ms >= state.backlog_high_water_ms {
                    if most < 24 {
                        most as u64
                    } else {
                        24
                    }
                } else if backlog_ms >= state.backlog_low_water_ms {
                    if most < 40 {
                        most as u64
                    } else {
                        40
                    }
                } else {
                    most as u64
                },
            )
        }),
{
    let mode = response_policy::budget_mode(
        backlog_ms,
        state.backlog_low_water_ms,
        state.backlog_high_water_ms,
    );
    response_policy::law_instructions_tell_the_budget(
        state.response_instructions@,
        mode,
        backlog_ms as nat,
        0,
    );
    law_model_is_told(
        Seq::empty(),
        response_policy::budget_instructions(
            state.response_instructions@,
            mode,
            backlog_ms as nat,
        ),
        response_policy::budget_tokens(
            state.max_response_tokens,
            backlog_ms,
            state.backlog_low_water_ms,
            state.backlog_high_water_ms,
        ),
    );
}

/// The first message sets the session, and all of it.
pub proof fn law_session_update(
    state: &AppState,
    threshold: Value,
    temperature: Value,
    res: Value,
)
    requires
        call_ensures(session_update, (state, threshold, temperature), res),
    ensures
        json::json_tree(res).text_at("type"@) == Some("session.update"@),
        json::json_tree(res).member("session"@) matches Some(session) && {
            &&& session.text_at("voice"@) == Some(state.openai_voice@)
            &&& session.text_at("instructions"@) == Some(state.persona_instructions@)
            &&& session.member("temperature"@) == Some(json::json_tree(temperature))
            &&& session.member("turn_detection"@) matches Some(detection) && detection.member(
                "threshold"@,
            ) == Some(json::json_tree(threshold))
        },
{
    reveal_strlit("type");
    reveal_strlit("session");
    assert("type"@.len() == 4);
    assert("session"@.len() == 7);
    let session = session_tree(*state, json::json_tree(threshold), json::json_tree(temperature));
    let entries = seq![
        ("type"@, JsonTree::Text("session.update"@)),
        ("session"@, session),
    ];
    json::law_object_holds_its_entries(entries, 0);
    json::law_object_holds_its_entries(entries, 1);
    law_session_is_set(*state, json::json_tree(threshold), json::json_tree(temperature));
}

/// Audio that can be read is decoded byte by byte, and samples that there are are
/// encoded one by one, so that they can be read again.
pub proof fn law_audio_is_decoded_and_encoded(
    delta: &str,
    decoded: Option<Vec<i16>>,
    samples: &[i16],
    encoded: Option<String>,
)
    requires
        call_ensures(decode_realtime_delta, (delta,), decoded),
        call_ensures(encode_realtime_audio, (samples,), encoded),
    ensures
        payload::base64_bytes(delta@) is None <==> decoded is None,
        payload::base64_bytes(delta@) matches Some(bytes) ==> decoded->0@.len() == bytes.len()
            && decoded->0@ == audio::ulaw_samples(bytes),
        samples@.len() == 0 <==> encoded is None,
        encoded matches Some(text) ==> (payload::base64_bytes(text@) matches Some(bytes)
            && bytes.len() == samples@.len() && bytes == audio::ulaw_codes(samples@)),
{
}

/// The model is reached under its name, as it is set.
pub proof fn law_realtime_url(model: &str, res: String)
    requires
        call_ensures(realtime_url, (model,), res),
    ensures
        ({
            let n = res@.len() - model@.len();
            &&& n >= 0
            &&& res@.take(n) == "wss://api.openai.com/v1/realtime?model="@
            &&& res@.skip(n) == model@
        }),
{
    let n = res@.len() - model@.len();
    assert(res@.take(n) =~= "wss://api.openai.com/v1/realtime?model="@);
    assert(res@.skip(n) =~= model@);
}

/// The model is told nothing else: no message holds anything under another name.
pub proof fn law_model_is_told_nothing_else(
    payload: Seq<char>,
    instructions: Seq<char>,
    max_tokens: u32,
    key: Seq<char>,
)
    ensures
        key != "type"@ && key != "audio"@ ==> append_tree(payload).member(key) is None,
        key != "type"@ ==> cancel_tree().member(key) is None,
        key != "type"@ && key != "response"@ ==> create_tree(instructions, max_tokens).member(
            key,
        ) is None,
{
    let append = seq![
        ("type"@, JsonTree::Text("input_audio_buffer.append"@)),
        ("audio"@, JsonTree::Text(payload)),
    ];
    let cancel = seq![("type"@, JsonTree::Text("response.cancel"@))];
    let response = seq![
        ("modalities"@, modalities()),
        ("instructions"@, JsonTree::Text(instructions)),
        ("max_output_tokens"@, JsonTree::Unsigned(max_tokens as u64)),
    ];
    let create = seq![
        ("type"@, JsonTree::Text("response.create"@)),
        ("response"@, json::object(response)),
    ];
    if key != "type"@ && key != "audio"@ {
        json::law_object_holds_nothing_else(append, key);
    }
    if key != "type"@ {
        json::law_object_holds_nothing_else(cancel, key);
    }
    if key != "type"@ && key != "response"@ {
        json::law_object_holds_nothing_else(create, key);
    }
}

} // verus!
