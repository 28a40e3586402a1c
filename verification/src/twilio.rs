//! The telephone side of a call: the messages of the media stream, the marks
//! behind the audio, and the caller's interruptions.

use crate::audio;
use crate::audio::WebRtcBargeInVad;
use crate::config::{OrchestratorStack, TurnTakingConfig};
use crate::json;
use crate::json::JsonTree;
use crate::payload;
use crate::signals::{RealtimeSignals, Signals};
use crate::split_providers::SplitControl;
use crate::text;
use serde_json::Value;
use vstd::prelude::*;

verus! {

// ---------------------------------------------------------------------------
// What the telephone network says
// ---------------------------------------------------------------------------

/// A message of the media stream.
pub enum TwilioEvent {
    Connected,
    Start { stream_sid: Option<String>, call_sid: String },
    Media { payload: Option<String> },
    Mark { name: String },
    Stop,
    Other,
}

/// What a message of the media stream says.
pub ghost enum StreamNews {
    Connected,
    Start { stream_sid: Option<Seq<char>>, call_sid: Seq<char> },
    Media { payload: Option<Seq<char>> },
    Mark { name: Seq<char> },
    Stop,
    Other,
}

impl View for TwilioEvent {
    type V = StreamNews;

    open spec fn view(&self) -> StreamNews {
        match *self {
            TwilioEvent::Connected => StreamNews::Connected,
            TwilioEvent::Start { stream_sid, call_sid } => StreamNews::Start {
                stream_sid: text::text_view(stream_sid),
                call_sid: call_sid@,
            },
            TwilioEvent::Media { payload } => StreamNews::Media {
                payload: text::text_view(payload),
            },
            TwilioEvent::Mark { name } => StreamNews::Mark { name: name@ },
            TwilioEvent::Stop => StreamNews::Stop,
            TwilioEvent::Other => StreamNews::Other,
        }
    }
}

/// The text, or what stands in for it.
pub open spec fn text_or(found: Option<Seq<char>>, default: Seq<char>) -> Seq<char> {
    match found {
        Some(found) => found,
        None => default,
    }
}

/// The stream that a start message opens, named at its top or in its details.
pub open spec fn stream_sid_in(tree: JsonTree) -> Option<Seq<char>> {
    match tree.text_at("streamSid"@) {
        Some(sid) => Some(sid),
        None => tree.text_in("start"@, "streamSid"@),
    }
}

/// What a message says, by its `event`.
pub open spec fn news_in(tree: JsonTree) -> StreamNews {
    match tree.text_at("event"@) {
        Some(event) => if event == "connected"@ {
            StreamNews::Connected
        } else if event == "start"@ {
            StreamNews::Start {
                stream_sid: stream_sid_in(tree),
                call_sid: text_or(tree.text_in("start"@, "callSid"@), "unknown"@),
            }
        } else if event == "media"@ {
            StreamNews::Media { payload: tree.text_in("media"@, "payload"@) }
        } else if event == "mark"@ {
            StreamNews::Mark { name: text_or(tree.text_in("mark"@, "name"@), Seq::empty()) }
        } else if event == "stop"@ {
            StreamNews::Stop
        } else {
            StreamNews::Other
        },
        None => StreamNews::Other,
    }
}

/// What a message says, by its `event`.
pub fn twilio_event(value: &Value) -> (res: TwilioEvent)
    ensures
        res@ == news_in(json::json_tree(*value)),
{
    let event = match json::text_at(value, "event") {
        Some(event) => event,
        None => {
            return TwilioEvent::Other;
        },
    };
    let event = event.as_str();
    if text::same_text(event, "connected") {
        TwilioEvent::Connected
    } else if text::same_text(event, "start") {
        let stream_sid = match json::text_at(value, "streamSid") {
            Some(sid) => Some(sid),
            None => json::text_in(value, "start", "streamSid"),
        };
        let call_sid = match json::text_in(value, "start", "callSid") {
            Some(sid) => sid,
            None => "unknown".to_owned(),
        };
        TwilioEvent::Start { stream_sid, call_sid }
    } else if text::same_text(event, "media") {
        TwilioEvent::Media { payload: json::text_in(value, "media", "payload") }
    } else if text::same_text(event, "mark") {
        let name = match json::text_in(value, "mark", "name") {
            Some(name) => name,
            None => String::new(),
        };
        TwilioEvent::Mark { name }
    } else if text::same_text(event, "stop") {
        TwilioEvent::Stop
    } else {
        TwilioEvent::Other
    }
}

/// What a message says, if it is JSON.
pub fn read_twilio_event(text: &str) -> (res: Option<TwilioEvent>)
    ensures
        res is Some <==> json::json_of_text(text@) is Some,
        res matches Some(event) ==> json::json_of_text(text@) matches Some(tree) && event@
            == news_in(tree),
{
    match json::parse_json(text) {
        Some(value) => Some(twilio_event(&value)),
        None => None,
    }
}

// ---------------------------------------------------------------------------
// The session
// ---------------------------------------------------------------------------

/// What is to be done about a message.
pub enum CallAction {
    Ignore,
    /// Track the call and connect the providers.
    Open { stream_sid: String, call_sid: String },
    /// Hand the caller's audio to the model as it came, and to the detector of
    /// interruptions.
    ForwardPayload { payload: String, audio: Vec<u8> },
    /// Hand the caller's audio to the transcriber and to the detector of
    /// interruptions.
    ForwardAudio { audio: Vec<u8> },
    End,
}

/// What is to be done about a message.
pub ghost enum Deed {
    Ignore,
    Open { stream_sid: Seq<char>, call_sid: Seq<char> },
    ForwardPayload { payload: Seq<char>, audio: Seq<u8> },
    ForwardAudio { audio: Seq<u8> },
    End,
}

impl View for CallAction {
    type V = Deed;

    open spec fn view(&self) -> Deed {
        match *self {
            CallAction::Ignore => Deed::Ignore,
            CallAction::Open { stream_sid, call_sid } => Deed::Open {
                stream_sid: stream_sid@,
                call_sid: call_sid@,
            },
            CallAction::ForwardPayload { payload, audio } => Deed::ForwardPayload {
                payload: payload@,
                audio: audio@,
            },
            CallAction::ForwardAudio { audio } => Deed::ForwardAudio { audio: audio@ },
            CallAction::End => Deed::End,
        }
    }
}

/// A stream was started without a name.
#[derive(Clone, Copy, Debug, PartialEq, Eq, Structural)]
pub struct MissingStreamSid;

/// A media stream, and whether its call has begun.
#[derive(Clone, Copy, Debug, PartialEq, Eq, Structural)]
pub struct TwilioSession {
    pub stack: OrchestratorStack,
    pub open: bool,
}

/// What is to be done about audio of the caller: nothing before the call has
/// begun or where the audio cannot be read.
pub open spec fn media_deed(
    session: TwilioSession,
    payload: Option<Seq<char>>,
    audio: Option<Seq<u8>>,
) -> Deed {
    match (payload, audio) {
        (Some(payload), Some(audio)) => if !session.open {
            Deed::Ignore
        } else if session.stack == OrchestratorStack::OpenAiRealtime {
            Deed::ForwardPayload { payload, audio }
        } else {
            Deed::ForwardAudio { audio }
        },
        _ => Deed::Ignore,
    }
}

/// The bytes of a payload that may be missing.
pub open spec fn audio_in(payload: Option<Seq<char>>) -> Option<Seq<u8>> {
    match payload {
        Some(payload) => payload::base64_bytes(payload),
        None => None,
    }
}

/// What is to be done about a message; `None` where a stream has no name.
pub open spec fn deed(session: TwilioSession, news: StreamNews) -> Option<Deed> {
    match news {
        StreamNews::Start { stream_sid: Some(stream_sid), call_sid } => Some(
            Deed::Open { stream_sid, call_sid },
        ),
        StreamNews::Start { stream_sid: None, .. } => None,
        StreamNews::Media { payload } => Some(media_deed(session, payload, audio_in(payload))),
        StreamNews::Stop => Some(Deed::End),
        _ => Some(Deed::Ignore),
    }
}

/// The marks that are left when one has come back.
pub open spec fn one_fewer(marks: usize) -> usize {
    if marks > 0 {
        (marks - 1) as usize
    } else {
        0
    }
}

/// What is left of a backlog of which this much was played.
pub open spec fn left_of(queued_ms: u64, audio_ms: nat) -> u64 {
    if queued_ms > audio_ms {
        (queued_ms - audio_ms) as u64
    } else {
        0
    }
}

/// The audio before a mark has been played, if the mark belongs to the reply
/// that may be heard.
pub open spec fn played(s: Signals, name: Seq<char>) -> Signals {
    match audio::playback_mark(name) {
        Some((generation, audio_ms)) => if generation == s.response_generation {
            Signals {
                played_audio_ms: s.played_audio_ms.wrapping_add(audio_ms as u64),
                queued_audio_ms: left_of(s.queued_audio_ms, audio_ms),
                ..s
            }
        } else {
            s
        },
        None => s,
    }
}

/// A mark has come back: the agent is silent when none is left.
pub open spec fn marked(s: Signals, name: Seq<char>) -> Signals {
    let left = one_fewer(s.pending_playback_marks);
    Signals {
        pending_playback_marks: left,
        assistant_speaking: s.assistant_speaking && left > 0,
        ..played(s, name)
    }
}

/// A mark has come back.
pub fn mark_came_back(signals: &mut RealtimeSignals, name: &str)
    ensures
        final(signals)@ == marked(old(signals)@, name@),
{
    match audio::parse_playback_mark(name) {
        Some((generation, audio_ms)) => if generation == signals.response_generation {
            signals.played_audio_ms = signals.played_audio_ms.wrapping_add(audio_ms);
            signals.queued_audio_ms = signals.queued_audio_ms.saturating_sub(audio_ms);
        },
        None => {},
    }
    let left: usize = signals.pending_playback_marks.saturating_sub(1);
    signals.pending_playback_marks = left;
    if left == 0 {
        signals.assistant_speaking = false;
    }
}

/// What is to be done about audio of the caller, given what its payload
/// decodes to.
pub fn media_action(
    session: TwilioSession,
    payload: Option<String>,
    audio: Option<Vec<u8>>,
) -> (res: CallAction)
    ensures
        res@ == media_deed(
            session,
            text::text_view(payload),
            match audio {
                Some(audio) => Some(audio@),
                None => None,
            },
        ),
{
    match (payload, audio) {
        (Some(payload), Some(audio)) => if !session.open {
            CallAction::Ignore
        } else if session.stack == OrchestratorStack::OpenAiRealtime {
            CallAction::ForwardPayload { payload, audio }
        } else {
            CallAction::ForwardAudio { audio }
        },
        _ => CallAction::Ignore,
    }
}

impl TwilioSession {
    /// A stream whose call has not begun.
    pub fn new(stack: OrchestratorStack) -> (res: Self)
        ensures
            res == (TwilioSession { stack, open: false }),
    {
        TwilioSession { stack, open: false }
    }

    /// Takes a message of the stream.
    pub fn hear(&mut self, event: TwilioEvent, signals: &mut RealtimeSignals) -> (res: Result<
        CallAction,
        MissingStreamSid,
    >)
        ensures
            res is Ok <==> deed(*old(self), event@) is Some,
            res matches Ok(action) ==> deed(*old(self), event@) == Some(action@),
            *final(self) == (TwilioSession {
                open: old(self).open || (event@ is Start && res is Ok),
                ..*old(self)
            }),
            final(signals)@ == match event@ {
                StreamNews::Mark { name } => marked(old(signals)@, name),
                _ => old(signals)@,
            },
    {
        match event {
            TwilioEvent::Start { stream_sid, call_sid } => match stream_sid {
                Some(stream_sid) => {
                    self.open = true;
                    Ok(CallAction::Open { stream_sid, call_sid })
                },
                None => Err(MissingStreamSid),
            },
            TwilioEvent::Media { payload } => {
                let audio = match &payload {
                    Some(text) => payload::decode_base64(text.as_str()),
                    None => None,
                };
                Ok(media_action(*self, payload, audio))
            },
            TwilioEvent::Mark { name } => {
                mark_came_back(signals, name.as_str());
                Ok(CallAction::Ignore)
            },
            TwilioEvent::Stop => Ok(CallAction::End),
            TwilioEvent::Connected => Ok(CallAction::Ignore),
            TwilioEvent::Other => Ok(CallAction::Ignore),
        }
    }
}

// ---------------------------------------------------------------------------
// What the agent sends
// ---------------------------------------------------------------------------

/// Audio for the caller, with the reply it belongs to and its length.
pub open spec fn media_tree(
    stream_sid: Seq<char>,
    generation: u64,
    audio_ms: u64,
    payload: Seq<char>,
) -> JsonTree {
    json::object(
        seq![
            ("event"@, JsonTree::Text("media"@)),
            ("streamSid"@, JsonTree::Text(stream_sid)),
            ("generation"@, JsonTree::Unsigned(generation)),
            ("audio_ms"@, JsonTree::Unsigned(audio_ms)),
            ("media"@, json::object(seq![("payload"@, JsonTree::Text(payload))])),
        ],
    )
}

/// Audio for the caller, with the reply it belongs to and its length.
pub fn media_message(stream_sid: &str, generation: u64, audio_ms: u64, payload: &str) -> (res:
    Value)
    ensures
        json::json_tree(res) == media_tree(stream_sid@, generation, audio_ms, payload@),
{
    let mut media: Vec<(String, Value)> = Vec::new();
    media.push(json::text_entry("payload", payload));
    assert(json::entry_trees(media@) =~= seq![("payload"@, JsonTree::Text(payload@))]);
    let mut entries: Vec<(String, Value)> = Vec::new();
    entries.push(json::text_entry("event", "media"));
    entries.push(json::text_entry("streamSid", stream_sid));
    entries.push(json::unsigned_entry("generation", generation));
    entries.push(json::unsigned_entry("audio_ms", audio_ms));
    entries.push(json::entry("media", json::object_value(media)));
    assert(json::entry_trees(entries@) =~= seq![
        ("event"@, JsonTree::Text("media"@)),
        ("streamSid"@, JsonTree::Text(stream_sid@)),
        ("generation"@, JsonTree::Unsigned(generation)),
        ("audio_ms"@, JsonTree::Unsigned(audio_ms)),
        ("media"@, json::object(seq![("payload"@, JsonTree::Text(payload@))])),
    ]);
    json::object_value(entries)
}

/// The demand to forget the audio that was not played.
pub open spec fn clear_tree(stream_sid: Seq<char>) -> JsonTree {
    json::object(
        seq![("event"@, JsonTree::Text("clear"@)), ("streamSid"@, JsonTree::Text(stream_sid))],
    )
}

/// The demand to forget the audio that was not played.
pub fn clear_message(stream_sid: &str) -> (res: Value)
    ensures
        json::json_tree(res) == clear_tree(stream_sid@),
{
    let mut entries: Vec<(String, Value)> = Vec::new();
    entries.push(json::text_entry("event", "clear"));
    entries.push(json::text_entry("streamSid", stream_sid));
    assert(json::entry_trees(entries@) =~= seq![
        ("event"@, JsonTree::Text("clear"@)),
        ("streamSid"@, JsonTree::Text(stream_sid@)),
    ]);
    json::object_value(entries)
}

/// A mark that comes back when the audio before it was played.
pub open spec fn mark_tree(stream_sid: Seq<char>, name: Seq<char>) -> JsonTree {
    json::object(
        seq![
            ("event"@, JsonTree::Text("mark"@)),
            ("streamSid"@, JsonTree::Text(stream_sid)),
            ("mark"@, json::object(seq![("name"@, JsonTree::Text(name))])),
        ],
    )
}

/// A mark that comes back when the audio before it was played.
pub fn mark_message(stream_sid: &str, name: &str) -> (res: Value)
    ensures
        json::json_tree(res) == mark_tree(stream_sid@, name@),
{
    let mut mark: Vec<(String, Value)> = Vec::new();
    mark.push(json::text_entry("name", name));
    assert(json::entry_trees(mark@) =~= seq![("name"@, JsonTree::Text(name@))]);
    let mut entries: Vec<(String, Value)> = Vec::new();
    entries.push(json::text_entry("event", "mark"));
    entries.push(json::text_entry("streamSid", stream_sid));
    entries.push(json::entry("mark", json::object_value(mark)));
    assert(json::entry_trees(entries@) =~= seq![
        ("event"@, JsonTree::Text("mark"@)),
        ("streamSid"@, JsonTree::Text(stream_sid@)),
        ("mark"@, json::object(seq![("name"@, JsonTree::Text(name@))])),
    ]);
    json::object_value(entries)
}

/// What a queued message is.
pub enum OutboundKind {
    /// Audio of a reply, for a stream if it names one.
    Media { generation: u64, audio_ms: u64, stream_sid: Option<String> },
    Clear,
    Plain,
}

/// What a queued message is.
pub ghost enum Kind {
    Media { generation: u64, audio_ms: u64, stream_sid: Option<Seq<char>> },
    Clear,
    Plain,
}

impl View for OutboundKind {
    type V = Kind;

    open spec fn view(&self) -> Kind {
        match *self {
            OutboundKind::Media { generation, audio_ms, stream_sid } => Kind::Media {
                generation,
                audio_ms,
                stream_sid: text::text_view(stream_sid),
            },
            OutboundKind::Clear => Kind::Clear,
            OutboundKind::Plain => Kind::Plain,
        }
    }
}

pub open spec fn number_or(found: Option<u64>, default: u64) -> u64 {
    match found {
        Some(n) => n,
        None => default,
    }
}

/// What a queued message is, by its `event`.
pub open spec fn kind_of(tree: JsonTree) -> Kind {
    match tree.text_at("event"@) {
        Some(event) => if event == "media"@ {
            Kind::Media {
                generation: number_or(tree.unsigned_at("generation"@), 0),
                audio_ms: number_or(
                    tree.unsigned_at("audio_ms"@),
                    audio::MEDIA_FRAME_MS as u64,
                ),
                stream_sid: tree.text_at("streamSid"@),
            }
        } else if event == "clear"@ {
            Kind::Clear
        } else {
            Kind::Plain
        },
        None => Kind::Plain,
    }
}

/// What a queued message is, by its `event`.
pub fn outbound_kind(value: &Value) -> (res: OutboundKind)
    ensures
        res@ == kind_of(json::json_tree(*value)),
{
    let event = match json::text_at(value, "event") {
        Some(event) => event,
        None => {
            return OutboundKind::Plain;
        },
    };
    if text::same_text(event.as_str(), "media") {
        let generation: u64 = match json::unsigned_at(value, "generation") {
            Some(n) => n,
            None => 0,
        };
        let audio_ms: u64 = match json::unsigned_at(value, "audio_ms") {
            Some(n) => n,
            None => audio::MEDIA_FRAME_MS as u64,
        };
        let stream_sid = json::text_at(value, "streamSid");
        OutboundKind::Media { generation, audio_ms, stream_sid }
    } else if text::same_text(event.as_str(), "clear") {
        OutboundKind::Clear
    } else {
        OutboundKind::Plain
    }
}

/// Audio of another reply than the one that may be heard.
pub open spec fn stale(kind: Kind, s: Signals) -> bool {
    kind matches Kind::Media { generation, .. } && generation != s.response_generation
}

/// The telephone network is not told of replies and lengths.
pub open spec fn wire_tree(tree: JsonTree) -> JsonTree {
    tree.without("generation"@).without("audio_ms"@)
}

/// A message on its way out.
pub struct Outgoing {
    pub text: String,
    pub kind: OutboundKind,
}

/// Sends the queued messages, and a mark behind each piece of audio.
pub struct TwilioSender {
    /// The number of the next mark.
    pub mark_seq: u64,
}

/// What changes when a message has gone out.
pub open spec fn sent(s: Signals, kind: Kind) -> Signals {
    match kind {
        Kind::Media { audio_ms, stream_sid, .. } => Signals {
            assistant_speaking: true,
            queued_audio_ms: s.queued_audio_ms.wrapping_add(audio_ms),
            pending_playback_marks: if stream_sid is Some {
                s.pending_playback_marks.wrapping_add(1)
            } else {
                s.pending_playback_marks
            },
            ..s
        },
        Kind::Clear => Signals {
            pending_playback_marks: 0,
            queued_audio_ms: 0,
            played_audio_ms: 0,
            ..s
        },
        Kind::Plain => s,
    }
}

/// The mark that follows a message: one behind each piece of audio for a named
/// stream.
pub open spec fn mark_behind(kind: Kind, mark_seq: u64) -> Option<Seq<char>> {
    match kind {
        Kind::Media { generation, audio_ms, stream_sid: Some(stream_sid) } => Some(
            json::json_text(
                mark_tree(
                    stream_sid,
                    audio::playback_mark_name(
                        generation as nat,
                        audio_ms as nat,
                        mark_seq as nat,
                    ),
                ),
            ),
        ),
        _ => None,
    }
}

impl TwilioSender {
    /// A sender that has sent nothing.
    pub fn new() -> (res: Self)
        ensures
            res.mark_seq == 1,
    {
        TwilioSender { mark_seq: 1 }
    }

    /// Takes a queued message: stale audio is dropped, anything else goes out.
    pub fn prepare(&self, message: Value, signals: &RealtimeSignals) -> (res: Option<Outgoing>)
        ensures
            res is None <==> stale(kind_of(json::json_tree(message)), signals@),
            res matches Some(outgoing) ==> {
                &&& outgoing.kind@ == kind_of(json::json_tree(message))
                &&& outgoing.text@ == json::json_text(wire_tree(json::json_tree(message)))
            },
    {
        let kind = outbound_kind(&message);
        match &kind {
            OutboundKind::Media { generation, .. } => if *generation
                != signals.response_generation {
                return None;
            },
            _ => {},
        }
        let mut wire = message;
        json::remove_member(&mut wire, "generation");
        json::remove_member(&mut wire, "audio_ms");
        Some(Outgoing { text: json::json_string(&wire), kind })
    }

    /// A message has gone out. Returns the mark that follows it.
    pub fn message_sent(&mut self, kind: &OutboundKind, signals: &mut RealtimeSignals) -> (res:
        Option<String>)
        ensures
            text::text_view(res) == mark_behind(kind@, old(self).mark_seq),
            final(self).mark_seq == if res is Some {
                old(self).mark_seq.wrapping_add(1)
            } else {
                old(self).mark_seq
            },
            final(signals)@ == sent(old(signals)@, kind@),
    {
        match kind {
            OutboundKind::Media { generation, audio_ms, stream_sid } => {
                signals.assistant_speaking = true;
                signals.queued_audio_ms = signals.queued_audio_ms.wrapping_add(*audio_ms);
                match stream_sid {
                    Some(stream_sid) => {
                        let name = audio::make_playback_mark_name(
                            *generation,
                            *audio_ms,
                            self.mark_seq,
                        );
                        self.mark_seq = self.mark_seq.wrapping_add(1);
                        signals.pending_playback_marks =
                        signals.pending_playback_marks.wrapping_add(1);
                        let mark = mark_message(stream_sid.as_str(), name.as_str());
                        Some(json::json_string(&mark))
                    },
                    None => None,
                }
            },
            OutboundKind::Clear => {
                signals.pending_playback_marks = 0;
                signals.queued_audio_ms = 0;
                signals.played_audio_ms = 0;
                None
            },
            OutboundKind::Plain => None,
        }
    }
}

// ---------------------------------------------------------------------------
// Interruptions
// ---------------------------------------------------------------------------

/// The caller can interrupt: the agent is heard, and has been for long enough.
pub open spec fn can_interrupt(s: Signals, turn: TurnTakingConfig) -> bool {
    s.playing() && s.generated_audio_ms >= turn.min_assistant_audio_before_barge_ms
}

/// Whether the caller can interrupt.
pub fn interruptible(signals: &RealtimeSignals, turn: &TurnTakingConfig) -> (res: bool)
    ensures
        res == can_interrupt(signals@, *turn),
{
    (signals.assistant_speaking || signals.pending_playback_marks > 0)
        && signals.generated_audio_ms >= turn.min_assistant_audio_before_barge_ms
}

/// The caller speaks while the agent can be interrupted.
pub open spec fn speaks_over(s: Signals, turn: TurnTakingConfig, speech: bool) -> bool {
    can_interrupt(s, turn) && speech
}

/// How long the caller has spoken over the agent after a frame.
pub open spec fn spoken_over(ms: int, s: Signals, turn: TurnTakingConfig, speech: bool) -> int {
    if speaks_over(s, turn, speech) {
        ms + audio::MEDIA_FRAME_MS
    } else {
        0
    }
}

/// The caller has not interrupted since falling silent.
pub open spec fn uninterrupted(s: Signals, turn: TurnTakingConfig, speech: bool) -> bool {
    !speaks_over(s, turn, speech) || !s.interrupted
}

/// The caller has spoken over the agent for long enough.
pub open spec fn long_enough(ms: int, s: Signals, turn: TurnTakingConfig, speech: bool) -> bool {
    can_interrupt(s, turn) && spoken_over(ms, s, turn, speech) >= turn.barge_in_speech_ms
}

/// A frame of the caller is an interruption.
pub open spec fn interrupts(ms: int, s: Signals, turn: TurnTakingConfig, speech: bool) -> bool {
    long_enough(ms, s, turn, speech) && uninterrupted(s, turn, speech)
}

/// The length of speech over the agent that is carried on after a frame: an
/// interruption starts it anew.
pub open spec fn carried(ms: int, s: Signals, turn: TurnTakingConfig, speech: bool) -> int {
    if interrupts(ms, s, turn, speech) {
        0
    } else {
        spoken_over(ms, s, turn, speech)
    }
}

/// Whether the caller counts as having interrupted after a frame.
pub open spec fn flagged(ms: int, s: Signals, turn: TurnTakingConfig, speech: bool) -> bool {
    long_enough(ms, s, turn, speech) || !uninterrupted(s, turn, speech)
}

/// The length of the speech that interrupts the agent with a frame.
pub open spec fn interruption(ms: int, s: Signals, turn: TurnTakingConfig, speech: bool) -> Option<
    u32,
> {
    if interrupts(ms, s, turn, speech) {
        Some(spoken_over(ms, s, turn, speech) as u32)
    } else {
        None
    }
}

/// Weighs a frame of the caller that is speech or not. Returns the length of
/// the speech that interrupts the agent.
pub fn weigh_frame(
    speech_ms: &mut u32,
    speech: bool,
    signals: &mut RealtimeSignals,
    turn: &TurnTakingConfig,
) -> (res: Option<u32>)
    requires
        speaks_over(old(signals)@, *turn, speech) ==> *old(speech_ms) + audio::MEDIA_FRAME_MS
            <= u32::MAX,
    ensures
        res == interruption(*old(speech_ms) as int, old(signals)@, *turn, speech),
        *final(speech_ms) == carried(*old(speech_ms) as int, old(signals)@, *turn, speech),
        final(signals)@ == (Signals {
            interrupted: flagged(*old(speech_ms) as int, old(signals)@, *turn, speech),
            ..old(signals)@
        }),
{
    let open = interruptible(signals, turn);
    if open && speech {
        *speech_ms = *speech_ms + audio::MEDIA_FRAME_MS;
    } else {
        *speech_ms = 0;
        signals.interrupted = false;
    }
    if open && *speech_ms >= turn.barge_in_speech_ms {
        let before = signals.interrupted;
        signals.interrupted = true;
        if !before {
            let spoken: u32 = *speech_ms;
            *speech_ms = 0;
            return Some(spoken);
        }
    }
    None
}

/// Listens for a caller who speaks over the agent.
pub struct BargeInDetector {
    pub vad: WebRtcBargeInVad,
    pub speech_ms: u32,
}

impl BargeInDetector {
    /// A detector that has heard nothing.
    pub fn new() -> (res: Self)
        ensures
            res.vad.heard() == Seq::<Seq<i16>>::empty(),
            res.speech_ms == 0,
    {
        BargeInDetector { vad: WebRtcBargeInVad::new(), speech_ms: 0 }
    }

    /// Hears audio of the caller. Returns the length of the speech that
    /// interrupts the agent.
    pub fn hear(
        &mut self,
        bytes: &[u8],
        signals: &mut RealtimeSignals,
        turn: &TurnTakingConfig,
    ) -> (res: Option<u32>)
        requires
            can_interrupt(old(signals)@, *turn) ==> old(self).speech_ms + audio::MEDIA_FRAME_MS
                <= u32::MAX,
        ensures
            ({
                let (speech, heard) = audio::first_speech(
                    old(self).vad.heard(),
                    audio::voice_frames(audio::ulaw_samples(bytes@)),
                );
                let ms = old(self).speech_ms as int;
                let s = old(signals)@;
                &&& final(self).vad.heard() == heard
                &&& res == interruption(ms, s, *turn, speech)
                &&& final(self).speech_ms == carried(ms, s, *turn, speech)
                &&& final(signals)@ == (Signals { interrupted: flagged(ms, s, *turn, speech), ..s })
            }),
    {
        let speech = self.vad.is_speech_ulaw_bytes(bytes);
        weigh_frame(&mut self.speech_ms, speech, signals, turn)
    }
}

/// What an interruption leaves: a new reply may be heard, and nothing of the
/// old one.
pub open spec fn cut_off(s: Signals) -> Signals {
    Signals {
        pending_playback_marks: 0,
        assistant_speaking: false,
        ..s.without_audio().next_generation()
    }
}

fn cut_off_signals(signals: &mut RealtimeSignals)
    ensures
        final(signals)@ == cut_off(old(signals)@),
{
    signals.response_generation = signals.response_generation.wrapping_add(1);
    signals.reset_audio();
    signals.pending_playback_marks = 0;
    signals.assistant_speaking = false;
}

/// The caller has interrupted a speech-to-speech model. Returns the demand to
/// forget the audio, and whether the reply is to be cancelled.
pub fn barge_in_realtime(signals: &mut RealtimeSignals, stream_sid: &str) -> (res: (Value, bool))
    ensures
        json::json_tree(res.0) == clear_tree(stream_sid@),
        res.1 == old(signals)@.response_active,
        final(signals)@ == (Signals {
            active_response_id: None,
            response_requested_at: None,
            ..cut_off(old(signals)@)
        }),
{
    cut_off_signals(signals);
    signals.active_response_id = None;
    signals.response_requested_at = None;
    (clear_message(stream_sid), signals.response_active)
}

/// The caller has interrupted split providers. Returns the demand to forget
/// the audio, and the command that stops the voice.
pub fn barge_in_split(signals: &mut RealtimeSignals, stream_sid: &str) -> (res: (
    Value,
    SplitControl,
))
    ensures
        json::json_tree(res.0) == clear_tree(stream_sid@),
        res.1 == (SplitControl::Cancel { context_id: None }),
        final(signals)@ == (Signals { response_active: false, ..cut_off(old(signals)@) }),
{
    cut_off_signals(signals);
    signals.response_active = false;
    (clear_message(stream_sid), SplitControl::Cancel { context_id: None })
}

// ---------------------------------------------------------------------------
// Laws
// ---------------------------------------------------------------------------

/// After an interruption no audio of the reply that was cut off goes out, and
/// the agent counts as silent.
pub proof fn law_interruption_makes_audio_stale(s: Signals, audio_ms: u64, stream_sid: Option<
    Seq<char>,
>)
    ensures
        stale(
            Kind::Media { generation: s.response_generation, audio_ms, stream_sid },
            cut_off(s),
        ),
        !cut_off(s).playing(),
{
}

/// Only a caller who speaks while the agent is heard, and has been heard for
/// long enough, interrupts, and any other frame lets the caller interrupt
/// again.
pub proof fn law_only_speech_interrupts(
    ms: int,
    s: Signals,
    turn: TurnTakingConfig,
    speech: bool,
)
    requires
        turn.barge_in_speech_ms > 0,
    ensures
        interrupts(ms, s, turn, speech) ==> speaks_over(s, turn, speech),
        !speaks_over(s, turn, speech) ==> !flagged(ms, s, turn, speech),
{
}

/// A frame of the caller, with what the parts of the call knew when it was
/// weighed.
pub ghost struct Weighed {
    pub signals: Signals,
    pub speech: bool,
}

impl Weighed {
    /// The caller speaks over the agent in this frame.
    pub open spec fn counts(self, turn: TurnTakingConfig) -> bool {
        speaks_over(self.signals, turn, self.speech)
    }
}

/// The length of speech over the agent that a new detector carries on after
/// frames.
pub open spec fn carried_after(frames: Seq<Weighed>, turn: TurnTakingConfig) -> int
    decreases frames.len(),
{
    if frames.len() == 0 {
        0
    } else {
        carried(
            carried_after(frames.drop_last(), turn),
            frames.last().signals,
            turn,
            frames.last().speech,
        )
    }
}

/// Frame `i` is an interruption to a detector that was new before the first.
pub open spec fn raised(frames: Seq<Weighed>, i: int, turn: TurnTakingConfig) -> bool {
    interrupts(
        carried_after(frames.take(i), turn),
        frames[i].signals,
        turn,
        frames[i].speech,
    )
}

/// Frame `i` finds the flag of an interruption as the frame before it left it.
pub open spec fn flag_kept(frames: Seq<Weighed>, i: int, turn: TurnTakingConfig) -> bool {
    frames[i].signals.interrupted == flagged(
        carried_after(frames.take(i - 1), turn),
        frames[i - 1].signals,
        turn,
        frames[i - 1].speech,
    )
}

/// Nothing but the detector decides whether the caller counts as having
/// interrupted.
pub open spec fn flag_is_the_detectors(frames: Seq<Weighed>, turn: TurnTakingConfig) -> bool {
    forall|i: int| 0 < i < frames.len() ==> #[trigger] flag_kept(frames, i, turn)
}

/// How many frames it takes to interrupt.
pub open spec fn frames_needed(turn: TurnTakingConfig) -> int {
    (turn.barge_in_speech_ms + (audio::MEDIA_FRAME_MS - 1)) / audio::MEDIA_FRAME_MS as int
}

/// The frames from one place to another all count.
pub open spec fn all_count(
    frames: Seq<Weighed>,
    from: int,
    end: int,
    turn: TurnTakingConfig,
) -> bool {
    forall|k: int| from <= k < end ==> (#[trigger] frames[k]).counts(turn)
}

/// What is carried on is the length of a run of frames that count.
proof fn lemma_carried_is_a_run(frames: Seq<Weighed>, i: int, turn: TurnTakingConfig) -> (n: int)
    requires
        0 <= i <= frames.len(),
    ensures
        0 <= n <= i,
        carried_after(frames.take(i), turn) == audio::MEDIA_FRAME_MS * n,
        all_count(frames, i - n, i, turn),
    decreases i,
{
    if i == 0 {
        0
    } else {
        let before = lemma_carried_is_a_run(frames, i - 1, turn);
        assert(frames.take(i).drop_last() =~= frames.take(i - 1));
        assert(frames.take(i).last() == frames[i - 1]);
        if carried_after(frames.take(i), turn) == 0 {
            0
        } else {
            assert(frames[i - 1].counts(turn));
            before + 1
        }
    }
}

/// An interruption takes its time: the frame that interrupts and those before
/// it make an unbroken run of frames in which the caller speaks over the agent,
/// and the run lasts at least as long as it takes to interrupt.
pub proof fn law_interruption_takes_a_run(frames: Seq<Weighed>, i: int, turn: TurnTakingConfig)
    requires
        turn.barge_in_speech_ms > 0,
        0 <= i < frames.len(),
        raised(frames, i, turn),
    ensures
        frames_needed(turn) >= 1,
        audio::MEDIA_FRAME_MS * frames_needed(turn) >= turn.barge_in_speech_ms,
        i + 1 >= frames_needed(turn),
        all_count(frames, i + 1 - frames_needed(turn), i + 1, turn),
{
    let n = lemma_carried_is_a_run(frames, i, turn);
    assert(frames[i].counts(turn));
    assert(audio::MEDIA_FRAME_MS * n + audio::MEDIA_FRAME_MS >= turn.barge_in_speech_ms);
    assert(n + 1 >= frames_needed(turn));
}

proof fn lemma_flag_stays_up(frames: Seq<Weighed>, i: int, j: int, turn: TurnTakingConfig)
    requires
        0 <= i < j < frames.len(),
        flag_is_the_detectors(frames, turn),
        raised(frames, i, turn),
        all_count(frames, i, j, turn),
    ensures
        frames[j].signals.interrupted,
    decreases j,
{
    assert(flag_kept(frames, j, turn));
    if j > i + 1 {
        lemma_flag_stays_up(frames, i, j - 1, turn);
        assert(frames[j - 1].counts(turn));
    }
}

/// A caller who goes on speaking interrupts once: between two interruptions
/// there is a frame in which the caller does not speak over the agent.
pub proof fn law_one_interruption_in_a_run(
    frames: Seq<Weighed>,
    i: int,
    j: int,
    turn: TurnTakingConfig,
)
    requires
        turn.barge_in_speech_ms > 0,
        flag_is_the_detectors(frames, turn),
        0 <= i < j < frames.len(),
        raised(frames, i, turn),
        raised(frames, j, turn),
    ensures
        !all_count(frames, i, j + 1, turn),
{
    if all_count(frames, i, j + 1, turn) {
        assert(frames[j].counts(turn));
        assert forall|k: int| i <= k < j implies (#[trigger] frames[k]).counts(turn) by {}
        lemma_flag_stays_up(frames, i, j, turn);
    }
}

proof fn lemma_run_builds_up(frames: Seq<Weighed>, from: int, n: int, turn: TurnTakingConfig)
    requires
        turn.barge_in_speech_ms > 0,
        flag_is_the_detectors(frames, turn),
        0 <= from,
        0 <= n < frames_needed(turn),
        from + n < frames.len(),
        from == 0 ==> !frames[0].signals.interrupted,
        from > 0 ==> !frames[from - 1].counts(turn),
        all_count(frames, from, from + n, turn),
    ensures
        carried_after(frames.take(from + n), turn) == audio::MEDIA_FRAME_MS * n,
        !frames[from + n].signals.interrupted,
    decreases n,
{
    if from + n > 0 {
        assert(flag_kept(frames, from + n, turn));
        assert(frames.take(from + n).drop_last() =~= frames.take(from + n - 1));
        assert(frames.take(from + n).last() == frames[from + n - 1]);
    }
    if n > 0 {
        assert forall|k: int| from <= k < from + n - 1 implies (#[trigger] frames[k]).counts(
            turn,
        ) by {}
        lemma_run_builds_up(frames, from, n - 1, turn);
        assert(frames[from + n - 1].counts(turn));
        assert(audio::MEDIA_FRAME_MS * n < turn.barge_in_speech_ms);
    }
}

/// A run of frames in which the caller speaks over the agent interrupts as soon
/// as it lasts long enough, and not before.
pub proof fn law_run_interrupts_in_time(
    frames: Seq<Weighed>,
    from: int,
    n: int,
    turn: TurnTakingConfig,
)
    requires
        turn.barge_in_speech_ms > 0,
        flag_is_the_detectors(frames, turn),
        0 <= from,
        1 <= n <= frames_needed(turn),
        from + n <= frames.len(),
        from == 0 ==> !frames[0].signals.interrupted,
        from > 0 ==> !frames[from - 1].counts(turn),
        all_count(frames, from, from + n, turn),
    ensures
        raised(frames, from + n - 1, turn) <==> n == frames_needed(turn),
{
    assert forall|k: int| from <= k < from + n - 1 implies (#[trigger] frames[k]).counts(turn) by {}
    lemma_run_builds_up(frames, from, n - 1, turn);
    assert(frames[from + n - 1].counts(turn));
}

/// Audio and its mark balance: when a piece of audio has gone out and its mark
/// has come back, as many marks are pending and as much audio is queued as
/// before, and the audio counts as played.
pub proof fn law_mark_settles_audio(s: Signals, audio_ms: u64, stream_sid: Seq<char>, number: u64)
    requires
        s.pending_playback_marks < usize::MAX,
        s.queued_audio_ms + audio_ms <= u64::MAX,
        s.played_audio_ms + audio_ms <= u64::MAX,
    ensures
        ({
            let media = Kind::Media {
                generation: s.response_generation,
                audio_ms,
                stream_sid: Some(stream_sid),
            };
            let name = audio::playback_mark_name(
                s.response_generation as nat,
                audio_ms as nat,
                number as nat,
            );
            let after = marked(sent(s, media), name);
            &&& after.pending_playback_marks == s.pending_playback_marks
            &&& after.queued_audio_ms == s.queued_audio_ms
            &&& after.played_audio_ms == s.played_audio_ms + audio_ms
            &&& after.assistant_speaking == (s.pending_playback_marks > 0)
        }),
{
    audio::law_playback_mark_round_trip(s.response_generation, audio_ms, number);
}

/// A mark of another reply, or one with another name, changes no count of
/// audio.
pub proof fn law_stale_marks_count_nothing(s: Signals, name: Seq<char>)
    requires
        audio::playback_mark(name) matches Some(mark) ==> mark.0 != s.response_generation,
    ensures
        marked(s, name).played_audio_ms == s.played_audio_ms,
        marked(s, name).queued_audio_ms == s.queued_audio_ms,
{
}

proof fn lemma_keys_differ()
    ensures
        "event"@ != "streamSid"@,
        "event"@ != "generation"@,
        "event"@ != "audio_ms"@,
        "event"@ != "media"@,
        "event"@ != "mark"@,
        "streamSid"@ != "generation"@,
        "streamSid"@ != "audio_ms"@,
        "streamSid"@ != "media"@,
        "streamSid"@ != "mark"@,
        "generation"@ != "audio_ms"@,
        "generation"@ != "media"@,
        "audio_ms"@ != "media"@,
        "media"@ != "clear"@,
        "mark"@ != "connected"@,
        "mark"@ != "start"@,
        "mark"@ != "media"@,
{
    reveal_strlit("event");
    reveal_strlit("streamSid");
    reveal_strlit("generation");
    reveal_strlit("audio_ms");
    reveal_strlit("media");
    reveal_strlit("mark");
    reveal_strlit("clear");
    reveal_strlit("connected");
    reveal_strlit("start");
    assert("event"@.len() == 5);
    assert("streamSid"@.len() == 9);
    assert("generation"@.len() == 10);
    assert("audio_ms"@.len() == 8);
    assert("mark"@.len() == 4);
    assert("connected"@.len() == 9);
    assert("event"@[0] != "media"@[0]);
    assert("media"@[0] != "clear"@[0]);
}

/// A message is sent as what it was queued as: audio with its reply, length and
/// stream, and a demand to forget audio as that. The telephone network is told
/// the stream and the audio, and nothing else.
pub proof fn law_queued_messages_are_recognised(
    stream_sid: Seq<char>,
    generation: u64,
    audio_ms: u64,
    payload: Seq<char>,
)
    ensures
        kind_of(media_tree(stream_sid, generation, audio_ms, payload)) == (Kind::Media {
            generation,
            audio_ms,
            stream_sid: Some(stream_sid),
        }),
        wire_tree(media_tree(stream_sid, generation, audio_ms, payload)) == json::object(
            seq![
                ("event"@, JsonTree::Text("media"@)),
                ("streamSid"@, JsonTree::Text(stream_sid)),
                ("media"@, json::object(seq![("payload"@, JsonTree::Text(payload))])),
            ],
        ),
        kind_of(clear_tree(stream_sid)) == Kind::Clear,
        wire_tree(clear_tree(stream_sid)) == clear_tree(stream_sid),
{
    lemma_keys_differ();
    let inner = json::object(seq![("payload"@, JsonTree::Text(payload))]);
    let media = seq![
        ("event"@, JsonTree::Text("media"@)),
        ("streamSid"@, JsonTree::Text(stream_sid)),
        ("generation"@, JsonTree::Unsigned(generation)),
        ("audio_ms"@, JsonTree::Unsigned(audio_ms)),
        ("media"@, inner),
    ];
    let wire = seq![
        ("event"@, JsonTree::Text("media"@)),
        ("streamSid"@, JsonTree::Text(stream_sid)),
        ("media"@, inner),
    ];
    let all = Map::<Seq<char>, JsonTree>::empty().insert("event"@, JsonTree::Text("media"@)).insert(
        "streamSid"@,
        JsonTree::Text(stream_sid),
    ).insert("generation"@, JsonTree::Unsigned(generation)).insert(
        "audio_ms"@,
        JsonTree::Unsigned(audio_ms),
    ).insert("media"@, inner);
    lemma_members_of_five(media[0], media[1], media[2], media[3], media[4]);
    assert(json::members(media) == all);
    lemma_members_of_three(wire[0], wire[1], wire[2]);
    assert(all.remove("generation"@).remove("audio_ms"@) =~= json::members(wire));
    let clear = seq![
        ("event"@, JsonTree::Text("clear"@)),
        ("streamSid"@, JsonTree::Text(stream_sid)),
    ];
    lemma_members_of_two(clear[0], clear[1]);
    assert(json::members(clear).remove("generation"@).remove("audio_ms"@) =~= json::members(
        clear,
    ));
}

proof fn lemma_members_of_two(a: (Seq<char>, JsonTree), b: (Seq<char>, JsonTree))
    ensures
        json::members(seq![a, b]) == Map::<Seq<char>, JsonTree>::empty().insert(a.0, a.1).insert(
            b.0,
            b.1,
        ),
{
    reveal_with_fuel(json::members, 3);
    assert(seq![a, b].drop_last() =~= seq![a]);
    assert(seq![a].drop_last() =~= Seq::<(Seq<char>, JsonTree)>::empty());
}

proof fn lemma_members_of_three(
    a: (Seq<char>, JsonTree),
    b: (Seq<char>, JsonTree),
    c: (Seq<char>, JsonTree),
)
    ensures
        json::members(seq![a, b, c]) == Map::<Seq<char>, JsonTree>::empty().insert(
            a.0,
            a.1,
        ).insert(b.0, b.1).insert(c.0, c.1),
{
    lemma_members_of_two(a, b);
    assert(seq![a, b, c].drop_last() =~= seq![a, b]);
}

proof fn lemma_members_of_five(
    a: (Seq<char>, JsonTree),
    b: (Seq<char>, JsonTree),
    c: (Seq<char>, JsonTree),
    d: (Seq<char>, JsonTree),
    e: (Seq<char>, JsonTree),
)
    ensures
        json::members(seq![a, b, c, d, e]) == Map::<Seq<char>, JsonTree>::empty().insert(
            a.0,
            a.1,
        ).insert(b.0, b.1).insert(c.0, c.1).insert(d.0, d.1).insert(e.0, e.1),
{
    lemma_members_of_three(a, b, c);
    reveal_with_fuel(json::members, 2);
    assert(seq![a, b, c, d].drop_last() =~= seq![a, b, c]);
    assert(seq![a, b, c, d, e].drop_last() =~= seq![a, b, c, d]);
}

/// A mark that comes back as it was sent is the mark of the audio before it.
pub proof fn law_marks_are_recognised(stream_sid: Seq<char>, name: Seq<char>)
    ensures
        news_in(mark_tree(stream_sid, name)) == (StreamNews::Mark { name }),
{
    lemma_keys_differ();
    let inner = seq![("name"@, JsonTree::Text(name))];
    let mark = seq![
        ("event"@, JsonTree::Text("mark"@)),
        ("streamSid"@, JsonTree::Text(stream_sid)),
        ("mark"@, json::object(inner)),
    ];
    lemma_members_of_three(mark[0], mark[1], mark[2]);
    assert(inner.drop_last() =~= Seq::<(Seq<char>, JsonTree)>::empty());
    reveal_with_fuel(json::members, 2);
}

/// The agent is heard, has been heard for long enough, and was not interrupted
/// yet: a frame of speech then counts twenty milliseconds, and the one that
/// brings the caller's speech to the length it takes interrupts, whatever else
/// the parts of the call know. Before that the speech is carried on.
pub proof fn law_enough_speech_interrupts(ms: int, s: Signals, turn: TurnTakingConfig)
    requires
        0 <= ms,
        ms + 20 <= u32::MAX,
        s.assistant_speaking || s.pending_playback_marks > 0,
        s.generated_audio_ms >= turn.min_assistant_audio_before_barge_ms,
        !s.interrupted,
    ensures
        ms + 20 >= turn.barge_in_speech_ms ==> {
            &&& interruption(ms, s, turn, true) == Some((ms + 20) as u32)
            &&& carried(ms, s, turn, true) == 0
            &&& flagged(ms, s, turn, true)
        },
        ms + 20 < turn.barge_in_speech_ms ==> {
            &&& interruption(ms, s, turn, true) is None
            &&& carried(ms, s, turn, true) == ms + 20
            &&& !flagged(ms, s, turn, true)
        },
{
}

/// A caller who has interrupted and goes on speaking over the agent is carried
/// on, but does not interrupt again.
pub proof fn law_interrupted_agent_is_not_interrupted(ms: int, s: Signals, turn: TurnTakingConfig)
    requires
        s.assistant_speaking || s.pending_playback_marks > 0,
        s.generated_audio_ms >= turn.min_assistant_audio_before_barge_ms,
        s.interrupted,
    ensures
        interruption(ms, s, turn, true) is None,
        carried(ms, s, turn, true) == ms + 20,
        flagged(ms, s, turn, true),
{
}

/// A frame without speech, one while the agent is not heard, and one while the
/// agent has been heard for too short a time break the caller's speech off:
/// nothing of it is carried on. Such a frame interrupts only where no speech at
/// all is asked for and the agent could be interrupted.
pub proof fn law_other_frames_break_speech_off(
    ms: int,
    s: Signals,
    turn: TurnTakingConfig,
    speech: bool,
)
    requires
        !speech || !(s.assistant_speaking || s.pending_playback_marks > 0) || s.generated_audio_ms
            < turn.min_assistant_audio_before_barge_ms,
    ensures
        carried(ms, s, turn, speech) == 0,
        interruption(ms, s, turn, speech) == if turn.barge_in_speech_ms == 0 && (
        s.assistant_speaking || s.pending_playback_marks > 0) && s.generated_audio_ms
            >= turn.min_assistant_audio_before_barge_ms {
            Some(0u32)
        } else {
            None
        },
        flagged(ms, s, turn, speech) == (interruption(ms, s, turn, speech) is Some),
{
}

/// Four signals decide about an interruption: whether the agent speaks, whether
/// marks are pending, how much audio was made, and whether the caller has
/// interrupted. Two states that agree on them are weighed alike, whatever else
/// they hold.
pub proof fn law_other_signals_do_not_matter(
    ms: int,
    s: Signals,
    other: Signals,
    turn: TurnTakingConfig,
    speech: bool,
)
    requires
        s.assistant_speaking == other.assistant_speaking,
        (s.pending_playback_marks > 0) == (other.pending_playback_marks > 0),
        s.generated_audio_ms == other.generated_audio_ms,
        s.interrupted == other.interrupted,
    ensures
        interruption(ms, s, turn, speech) == interruption(ms, other, turn, speech),
        carried(ms, s, turn, speech) == carried(ms, other, turn, speech),
        flagged(ms, s, turn, speech) == flagged(ms, other, turn, speech),
{
}

/// More audio, more speech and less patience never keep a caller from
/// interrupting.
pub proof fn law_interruption_is_monotone(
    ms: int,
    more: int,
    s: Signals,
    generated_audio_ms: u64,
    turn: TurnTakingConfig,
    sooner: TurnTakingConfig,
)
    requires
        0 <= ms <= more,
        s.generated_audio_ms <= generated_audio_ms,
        sooner.barge_in_speech_ms <= turn.barge_in_speech_ms,
        sooner.min_assistant_audio_before_barge_ms <= turn.min_assistant_audio_before_barge_ms,
        interruption(ms, s, turn, true) is Some,
    ensures
        interruption(more, Signals { generated_audio_ms, ..s }, sooner, true) is Some,
{
}

/// A caller who speaks over the agent without a break, in frames of twenty
/// milliseconds, interrupts with the frame in which the speech reaches the
/// length it takes, and with none before it. Of each frame only this is asked:
/// that it is speech, that the agent is heard, and that enough of the reply was
/// made.
pub proof fn law_unbroken_speech_interrupts(frames: Seq<Weighed>, turn: TurnTakingConfig, i: int)
    requires
        turn.barge_in_speech_ms > 0,
        flag_is_the_detectors(frames, turn),
        0 <= i < frames.len(),
        !frames[0].signals.interrupted,
        20 * i < turn.barge_in_speech_ms,
        forall|k: int|
            #![trigger frames[k]]
            0 <= k <= i ==> {
                &&& frames[k].speech
                &&& frames[k].signals.assistant_speaking
                    || frames[k].signals.pending_playback_marks > 0
                &&& frames[k].signals.generated_audio_ms
                    >= turn.min_assistant_audio_before_barge_ms
            },
    ensures
        raised(frames, i, turn) <==> 20 * (i + 1) >= turn.barge_in_speech_ms,
{
    assert forall|k: int| 0 <= k < i + 1 implies (#[trigger] frames[k]).counts(turn) by {}
    assert(i < frames_needed(turn));
    law_run_interrupts_in_time(frames, 0, i + 1, turn);
}

/// What an interruption leaves: the agent is silent, nothing is pending, and no
/// audio of the reply was made, queued or played. The next reply has the next
/// number. Nothing else changes.
pub proof fn law_interruption_clears_the_way(s: Signals)
    ensures
        ({
            let after = cut_off(s);
            &&& !after.assistant_speaking
            &&& after.pending_playback_marks == 0
            &&& after.generated_audio_ms == 0
            &&& after.played_audio_ms == 0
            &&& after.queued_audio_ms == 0
            &&& s.response_generation < u64::MAX ==> after.response_generation
                == s.response_generation + 1
            &&& s.response_generation == u64::MAX ==> after.response_generation == 0
            &&& after.response_active == s.response_active
            &&& after.interrupted == s.interrupted
            &&& after.active_response_id == s.active_response_id
            &&& after.response_requested_at == s.response_requested_at
            &&& after.user_speech_generation == s.user_speech_generation
            &&& after.current_turn_speech_ms == s.current_turn_speech_ms
            &&& after.openai_speech_started_ms == s.openai_speech_started_ms
        }),
{
}

proof fn lemma_events_differ()
    ensures
        "connected"@ != "start"@,
        "connected"@ != "media"@,
        "connected"@ != "mark"@,
        "connected"@ != "stop"@,
        "start"@ != "media"@,
        "start"@ != "mark"@,
        "start"@ != "stop"@,
        "media"@ != "mark"@,
        "media"@ != "stop"@,
        "mark"@ != "stop"@,
{
    reveal_strlit("connected");
    reveal_strlit("start");
    reveal_strlit("media");
    reveal_strlit("mark");
    reveal_strlit("stop");
    assert("connected"@.len() == 9);
    assert("start"@.len() == 5 && "start"@[0] == 's');
    assert("media"@.len() == 5 && "media"@[0] == 'm');
    assert("mark"@.len() == 4 && "mark"@[0] == 'm');
    assert("stop"@.len() == 4 && "stop"@[0] == 's');
}

/// A message of the stream says by its `event` what it is. A start names its
/// stream, in the message itself or else under `start`, and its call, or else
/// `unknown`; audio brings its payload as it stands, and a mark its name, or else
/// an empty one. Any other message is of no account.
pub proof fn law_stream_messages_are_read(tree: JsonTree)
    ensures
        ({
            let event = tree.text_at("event"@);
            let news = news_in(tree);
            &&& event == Some("connected"@) ==> news == StreamNews::Connected
            &&& event == Some("stop"@) ==> news == StreamNews::Stop
            &&& event == Some("media"@) ==> news == (StreamNews::Media {
                payload: tree.text_in("media"@, "payload"@),
            })
            &&& event == Some("mark"@) ==> news is Mark
            &&& event == Some("mark"@) && tree.text_in("mark"@, "name"@) is Some
                ==> tree.text_in("mark"@, "name"@) == Some(news->name)
            &&& event == Some("mark"@) && tree.text_in("mark"@, "name"@) is None
                ==> news->name.len() == 0
            &&& event == Some("start"@) ==> news is Start
            &&& event == Some("start"@) && tree.text_at("streamSid"@) is Some
                ==> news->stream_sid == tree.text_at("streamSid"@)
            &&& event == Some("start"@) && tree.text_at("streamSid"@) is None
                ==> news->stream_sid == tree.text_in("start"@, "streamSid"@)
            &&& event == Some("start"@) && tree.text_in("start"@, "callSid"@) is Some
                ==> tree.text_in("start"@, "callSid"@) == Some(news->call_sid)
            &&& event == Some("start"@) && tree.text_in("start"@, "callSid"@) is None
                ==> news->call_sid == "unknown"@
            &&& event != Some("connected"@) && event != Some("stop"@) && event != Some("media"@)
                && event != Some("mark"@) && event != Some("start"@) ==> news == StreamNews::Other
        }),
{
    lemma_events_differ();
}

/// A call opens when its stream starts under a name, whatever went before, and
/// cannot go on where the name is missing. It ends when the stream stops. Nothing
/// else than audio asks for anything to be done.
pub proof fn law_call_opens_and_ends(
    session: TwilioSession,
    stream_sid: Seq<char>,
    call_sid: Seq<char>,
    name: Seq<char>,
)
    ensures
        deed(session, StreamNews::Start { stream_sid: Some(stream_sid), call_sid }) == Some(
            Deed::Open { stream_sid, call_sid },
        ),
        deed(session, StreamNews::Start { stream_sid: None, call_sid }) is None,
        deed(session, StreamNews::Stop) == Some(Deed::End),
        deed(session, StreamNews::Connected) == Some(Deed::Ignore),
        deed(session, StreamNews::Mark { name }) == Some(Deed::Ignore),
        deed(session, StreamNews::Other) == Some(Deed::Ignore),
{
}

/// All audio that comes while the call is open and can be read is handed on: to a
/// speech-to-speech model as it came, to split providers as bytes. Audio that
/// comes before, that is missing or that cannot be read is not.
pub proof fn law_audio_is_handed_on(
    session: TwilioSession,
    payload: Seq<char>,
    audio: Seq<u8>,
)
    ensures
        ({
            let news = StreamNews::Media { payload: Some(payload) };
            let readable = payload::base64_bytes(payload) == Some(audio);
            &&& session.open && readable && session.stack == OrchestratorStack::OpenAiRealtime
                ==> deed(session, news) == Some(Deed::ForwardPayload { payload, audio })
            &&& session.open && readable && session.stack == OrchestratorStack::SplitProviders
                ==> deed(session, news) == Some(Deed::ForwardAudio { audio })
            &&& !session.open ==> deed(session, news) == Some(Deed::Ignore)
            &&& payload::base64_bytes(payload) is None ==> deed(session, news) == Some(
                Deed::Ignore,
            )
            &&& deed(session, StreamNews::Media { payload: None }) == Some(Deed::Ignore)
        }),
{
}

/// A mark that comes back is one fewer that is pending, and with the last of them
/// the agent is silent. Where it names the reply that may be heard, the audio it
/// names counts as played, and as queued no longer. Nothing else changes, and of
/// any other mark no audio is counted.
pub proof fn law_marks_are_counted(s: Signals, name: Seq<char>, audio_ms: u64)
    requires
        s.played_audio_ms + audio_ms <= u64::MAX,
    ensures
        ({
            let after = marked(s, name);
            let mark = audio::playback_mark(name);
            let counts = mark matches Some(found) && found.0 == s.response_generation;
            &&& s.pending_playback_marks > 0 ==> after.pending_playback_marks
                == s.pending_playback_marks - 1
            &&& s.pending_playback_marks == 0 ==> after.pending_playback_marks == 0
            &&& after.assistant_speaking <==> s.assistant_speaking && s.pending_playback_marks > 1
            &&& mark == Some((s.response_generation as nat, audio_ms as nat)) ==> {
                &&& after.played_audio_ms == s.played_audio_ms + audio_ms
                &&& audio_ms <= s.queued_audio_ms ==> after.queued_audio_ms == s.queued_audio_ms
                    - audio_ms
                &&& audio_ms > s.queued_audio_ms ==> after.queued_audio_ms == 0
            }
            &&& !counts ==> after.played_audio_ms == s.played_audio_ms && after.queued_audio_ms
                == s.queued_audio_ms
            &&& after == (Signals {
                pending_playback_marks: after.pending_playback_marks,
                assistant_speaking: after.assistant_speaking,
                played_audio_ms: after.played_audio_ms,
                queued_audio_ms: after.queued_audio_ms,
                ..s
            })
        }),
{
}

/// Audio that has gone out is heard and counts as queued with its whole length,
/// and where its stream is named one more mark is pending. A demand to forget
/// audio leaves none queued, played or marked. Anything else that goes out changes
/// nothing.
pub proof fn law_messages_are_counted(
    s: Signals,
    generation: u64,
    audio_ms: u64,
    stream_sid: Seq<char>,
)
    requires
        s.queued_audio_ms + audio_ms <= u64::MAX,
        s.pending_playback_marks < usize::MAX,
    ensures
        sent(s, Kind::Media { generation, audio_ms, stream_sid: Some(stream_sid) }) == (Signals {
            assistant_speaking: true,
            queued_audio_ms: (s.queued_audio_ms + audio_ms) as u64,
            pending_playback_marks: (s.pending_playback_marks + 1) as usize,
            ..s
        }),
        sent(s, Kind::Media { generation, audio_ms, stream_sid: None }) == (Signals {
            assistant_speaking: true,
            queued_audio_ms: (s.queued_audio_ms + audio_ms) as u64,
            ..s
        }),
        sent(s, Kind::Clear) == (Signals {
            pending_playback_marks: 0,
            queued_audio_ms: 0,
            played_audio_ms: 0,
            ..s
        }),
        sent(s, Kind::Plain) == s,
{
}

/// Audio goes out exactly while its reply may be heard, whatever else the parts of
/// the call know; anything else always goes out.
pub proof fn law_only_stale_audio_is_dropped(
    s: Signals,
    generation: u64,
    audio_ms: u64,
    stream_sid: Option<Seq<char>>,
)
    ensures
        stale(Kind::Media { generation, audio_ms, stream_sid }, s) <==> generation
            != s.response_generation,
        !stale(Kind::Clear, s),
        !stale(Kind::Plain, s),
{
}

/// A queued message is audio or a demand to forget audio by its `event`, and
/// plain otherwise. Audio that does not say so belongs to no reply, and lasts
/// twenty milliseconds.
pub proof fn law_queued_messages_are_told_apart(tree: JsonTree)
    ensures
        ({
            let event = tree.text_at("event"@);
            let kind = kind_of(tree);
            &&& event == Some("media"@) ==> kind is Media
            &&& event == Some("media"@) ==> kind->stream_sid == tree.text_at("streamSid"@)
            &&& event == Some("media"@) && tree.unsigned_at("generation"@) is Some
                ==> tree.unsigned_at("generation"@) == Some(kind->generation)
            &&& event == Some("media"@) && tree.unsigned_at("generation"@) is None
                ==> kind->generation == 0
            &&& event == Some("media"@) && tree.unsigned_at("audio_ms"@) is Some
                ==> tree.unsigned_at("audio_ms"@) == Some(kind->audio_ms)
            &&& event == Some("media"@) && tree.unsigned_at("audio_ms"@) is None ==> kind->audio_ms
                == 20
            &&& event == Some("clear"@) ==> kind == Kind::Clear
            &&& event != Some("media"@) && event != Some("clear"@) ==> kind == Kind::Plain
        }),
{
    lemma_keys_differ();
}

/// On the wire a message lacks the number of its reply and its length, and keeps
/// everything else.
pub proof fn law_wire_messages_keep_the_rest(
    members: Map<Seq<char>, JsonTree>,
    key: Seq<char>,
)
    ensures
        ({
            let wire = wire_tree(JsonTree::Object(members));
            &&& wire.member("generation"@) is None
            &&& wire.member("audio_ms"@) is None
            &&& key != "generation"@ && key != "audio_ms"@ ==> wire.member(key)
                == JsonTree::Object(members).member(key)
        }),
{
    lemma_keys_differ();
}

/// Every piece of audio whose stream is named is followed by a mark of that
/// stream, which tells its reply and its length; nothing else is followed by one.
pub proof fn law_audio_is_marked(
    generation: u64,
    audio_ms: u64,
    stream_sid: Seq<char>,
    number: u64,
)
    ensures
        ({
            let name = audio::playback_mark_name(
                generation as nat,
                audio_ms as nat,
                number as nat,
            );
            let tree = mark_tree(stream_sid, name);
            let media = Kind::Media { generation, audio_ms, stream_sid: Some(stream_sid) };
            &&& mark_behind(media, number) == Some(json::json_text(tree))
            &&& tree.text_at("event"@) == Some("mark"@)
            &&& tree.text_at("streamSid"@) == Some(stream_sid)
            &&& tree.text_in("mark"@, "name"@) == Some(name)
            &&& audio::playback_mark(name) == Some((generation as nat, audio_ms as nat))
            &&& mark_behind(
                Kind::Media { generation, audio_ms, stream_sid: None },
                number,
            ) is None
            &&& mark_behind(Kind::Clear, number) is None
            &&& mark_behind(Kind::Plain, number) is None
        }),
{
    audio::law_playback_mark_round_trip(generation, audio_ms, number);
    let name = audio::playback_mark_name(generation as nat, audio_ms as nat, number as nat);
    lemma_keys_differ();
    let inner = seq![("name"@, JsonTree::Text(name))];
    json::law_object_holds_its_entries(inner, 0);
    let entries = seq![
        ("event"@, JsonTree::Text("mark"@)),
        ("streamSid"@, JsonTree::Text(stream_sid)),
        ("mark"@, json::object(inner)),
    ];
    json::law_object_holds_its_entries(entries, 0);
    json::law_object_holds_its_entries(entries, 1);
    json::law_object_holds_its_entries(entries, 2);
}

/// Audio for the caller and a demand to forget audio can be read back: what they
/// are, for which stream, and the very payload.
pub proof fn law_messages_for_the_caller(
    stream_sid: Seq<char>,
    generation: u64,
    audio_ms: u64,
    payload: Seq<char>,
)
    ensures
        ({
            let media = media_tree(stream_sid, generation, audio_ms, payload);
            let clear = clear_tree(stream_sid);
            &&& media.text_at("event"@) == Some("media"@)
            &&& media.text_at("streamSid"@) == Some(stream_sid)
            &&& media.unsigned_at("generation"@) == Some(generation)
            &&& media.unsigned_at("audio_ms"@) == Some(audio_ms)
            &&& media.text_in("media"@, "payload"@) == Some(payload)
            &&& clear.text_at("event"@) == Some("clear"@)
            &&& clear.text_at("streamSid"@) == Some(stream_sid)
        }),
{
    lemma_keys_differ();
    let inner = seq![("payload"@, JsonTree::Text(payload))];
    json::law_object_holds_its_entries(inner, 0);
    let entries = seq![
        ("event"@, JsonTree::Text("media"@)),
        ("streamSid"@, JsonTree::Text(stream_sid)),
        ("generation"@, JsonTree::Unsigned(generation)),
        ("audio_ms"@, JsonTree::Unsigned(audio_ms)),
        ("media"@, json::object(inner)),
    ];
    json::law_object_holds_its_entries(entries, 0);
    json::law_object_holds_its_entries(entries, 1);
    json::law_object_holds_its_entries(entries, 2);
    json::law_object_holds_its_entries(entries, 3);
    json::law_object_holds_its_entries(entries, 4);
    let clear = seq![
        ("event"@, JsonTree::Text("clear"@)),
        ("streamSid"@, JsonTree::Text(stream_sid)),
    ];
    json::law_object_holds_its_entries(clear, 0);
    json::law_object_holds_its_entries(clear, 1);
}

/// The agent can be interrupted while it speaks or a mark is pending, once enough
/// of the reply was made, whatever else the parts of the call know.
pub proof fn law_interruptible(signals: &RealtimeSignals, turn: &TurnTakingConfig, res: bool)
    requires
        call_ensures(interruptible, (signals, turn), res),
    ensures
        res <==> (signals.assistant_speaking || signals.pending_playback_marks > 0)
            && signals.generated_audio_ms >= turn.min_assistant_audio_before_barge_ms,
{
}

/// A frame in which the caller speaks over the agent counts twenty milliseconds,
/// and interrupts where the caller's speech then is as long as it takes and has
/// not interrupted yet. Any other frame breaks the speech off. Nothing but the
/// flag of an interruption changes.
pub proof fn law_weigh_frame(
    speech_ms: &mut u32,
    speech: bool,
    signals: &mut RealtimeSignals,
    turn: &TurnTakingConfig,
    res: Option<u32>,
)
    requires
        call_ensures(weigh_frame, (speech_ms, speech, signals, turn), res),
        *old(speech_ms) + 20 <= u32::MAX,
        turn.barge_in_speech_ms > 0,
    ensures
        ({
            let heard = old(signals).assistant_speaking || old(signals).pending_playback_marks > 0;
            let over = speech && heard && old(signals).generated_audio_ms
                >= turn.min_assistant_audio_before_barge_ms;
            let ms = *old(speech_ms) + 20;
            &&& over && !old(signals).interrupted && ms >= turn.barge_in_speech_ms ==> {
                &&& res == Some(ms as u32)
                &&& *final(speech_ms) == 0
                &&& final(signals)@ == (Signals { interrupted: true, ..old(signals)@ })
            }
            &&& over && !old(signals).interrupted && ms < turn.barge_in_speech_ms ==> {
                &&& res is None
                &&& *final(speech_ms) == ms
                &&& final(signals)@ == old(signals)@
            }
            &&& over && old(signals).interrupted ==> {
                &&& res is None
                &&& *final(speech_ms) == ms
                &&& final(signals)@ == old(signals)@
            }
            &&& !over ==> {
                &&& res is None
                &&& *final(speech_ms) == 0
                &&& final(signals)@ == (Signals { interrupted: false, ..old(signals)@ })
            }
        }),
{
}

/// An interruption of a speech-to-speech model silences the agent, gives the next
/// reply the next number, and leaves no reply named or waited for. The reply is to
/// be cancelled where one is under way; the stream is told to forget its audio.
pub proof fn law_barge_in_realtime(
    signals: &mut RealtimeSignals,
    stream_sid: &str,
    res: (Value, bool),
)
    requires
        call_ensures(barge_in_realtime, (signals, stream_sid), res),
        old(signals).response_generation < u64::MAX,
    ensures
        res.1 == old(signals).response_active,
        json::json_tree(res.0).text_at("event"@) == Some("clear"@),
        json::json_tree(res.0).text_at("streamSid"@) == Some(stream_sid@),
        final(signals)@ == (Signals {
            assistant_speaking: false,
            pending_playback_marks: 0,
            response_generation: (old(signals).response_generation + 1) as u64,
            generated_audio_ms: 0,
            played_audio_ms: 0,
            queued_audio_ms: 0,
            active_response_id: None,
            response_requested_at: None,
            ..old(signals)@
        }),
{
    law_messages_for_the_caller(stream_sid@, 0, 0, Seq::empty());
}

/// An interruption of split providers silences the agent, gives the next reply the
/// next number, and leaves none under way. The reply under way is to be cancelled,
/// whatever it is called; the stream is told to forget its audio.
pub proof fn law_barge_in_split(
    signals: &mut RealtimeSignals,
    stream_sid: &str,
    res: (Value, SplitControl),
)
    requires
        call_ensures(barge_in_split, (signals, stream_sid), res),
        old(signals).response_generation < u64::MAX,
    ensures
        res.1 matches SplitControl::Cancel { context_id } && context_id is None,
        json::json_tree(res.0).text_at("event"@) == Some("clear"@),
        json::json_tree(res.0).text_at("streamSid"@) == Some(stream_sid@),
        final(signals)@ == (Signals {
            assistant_speaking: false,
            pending_playback_marks: 0,
            response_generation: (old(signals).response_generation + 1) as u64,
            generated_audio_ms: 0,
            played_audio_ms: 0,
            queued_audio_ms: 0,
            response_active: false,
            ..old(signals)@
        }),
{
    law_messages_for_the_caller(stream_sid@, 0, 0, Seq::empty());
}

/// A call is open once its stream has started under a name, and stays open. Only a
/// mark changes the signals.
pub proof fn law_session_hears(
    session: &mut TwilioSession,
    event: TwilioEvent,
    signals: &mut RealtimeSignals,
    res: Result<CallAction, MissingStreamSid>,
)
    requires
        call_ensures(TwilioSession::hear, (session, event, signals), res),
    ensures
        old(session).open ==> final(session).open,
        final(session).stack == old(session).stack,
        event matches TwilioEvent::Start { stream_sid, .. } ==> {
            &&& stream_sid is Some ==> final(session).open
            &&& stream_sid is Some <==> res is Ok
            &&& stream_sid is None ==> final(session).open == old(session).open
        },
        !(event is Start) ==> res is Ok && final(session).open == old(session).open,
        !(event is Mark) ==> final(signals)@ == old(signals)@,
        event matches TwilioEvent::Mark { name } ==> final(signals)@ == marked(
            old(signals)@,
            name@,
        ),
{
}

/// A queued message goes out unless it is audio of a reply that may not be heard:
/// then without the number of its reply and its length, and otherwise as it was.
pub proof fn law_prepare(
    sender: &TwilioSender,
    message: Value,
    signals: &RealtimeSignals,
    res: Option<Outgoing>,
)
    requires
        call_ensures(TwilioSender::prepare, (sender, message, signals), res),
    ensures
        ({
            let tree = json::json_tree(message);
            let media = tree.text_at("event"@) == Some("media"@);
            let current = tree.unsigned_at("generation"@) == Some(signals.response_generation);
            &&& media && tree.unsigned_at("generation"@) is Some ==> (res is Some <==> current)
            &&& !media ==> res is Some
            &&& res matches Some(outgoing) ==> outgoing.text@ == json::json_text(
                tree.without("generation"@).without("audio_ms"@),
            )
        }),
{
    lemma_keys_differ();
}

/// Marks are numbered in the order in which they go out, one for each piece of
/// audio whose stream is named.
pub proof fn law_message_sent(
    sender: &mut TwilioSender,
    kind: &OutboundKind,
    signals: &mut RealtimeSignals,
    res: Option<String>,
)
    requires
        call_ensures(TwilioSender::message_sent, (sender, kind, signals), res),
        old(sender).mark_seq < u64::MAX,
    ensures
        *kind matches OutboundKind::Media { generation, audio_ms, stream_sid } ==> {
            &&& stream_sid is Some <==> res is Some
            &&& stream_sid is Some ==> final(sender).mark_seq == old(sender).mark_seq + 1
            &&& stream_sid is None ==> final(sender).mark_seq == old(sender).mark_seq
            &&& final(signals).assistant_speaking
            &&& old(signals).queued_audio_ms + audio_ms <= u64::MAX
                ==> final(signals).queued_audio_ms == old(signals).queued_audio_ms + audio_ms
        },
        !(*kind is Media) ==> res is None && final(sender).mark_seq == old(sender).mark_seq,
        *kind is Plain ==> final(signals)@ == old(signals)@,
{
}

/// A message of the stream is heard exactly where it is JSON, and audio brings its
/// payload as it stands there.
pub proof fn law_read_twilio_event(text: &str, tree: JsonTree, res: Option<TwilioEvent>)
    requires
        call_ensures(read_twilio_event, (text,), res),
    ensures
        json::json_of_text(text@) is None ==> res is None,
        json::json_of_text(text@) == Some(tree) ==> res is Some,
        json::json_of_text(text@) == Some(tree) && tree.text_at("event"@) == Some("media"@)
            ==> res->0@ == (StreamNews::Media { payload: tree.text_in("media"@, "payload"@) }),
        json::json_of_text(text@) == Some(tree) && tree.text_at("event"@) == Some("stop"@)
            ==> res->0@ == StreamNews::Stop,
{
    lemma_events_differ();
}

/// A detector weighs the caller's audio as speech where one of its frames is
/// speech: then it counts twenty milliseconds while the agent can be interrupted,
/// and interrupts where that is as long as it takes.
pub proof fn law_detector_hears(
    detector: &mut BargeInDetector,
    bytes: &[u8],
    signals: &mut RealtimeSignals,
    turn: &TurnTakingConfig,
    res: Option<u32>,
)
    requires
        call_ensures(BargeInDetector::hear, (detector, bytes, signals, turn), res),
        old(detector).speech_ms + 20 <= u32::MAX,
        turn.barge_in_speech_ms > 0,
        old(signals).assistant_speaking || old(signals).pending_playback_marks > 0,
        old(signals).generated_audio_ms >= turn.min_assistant_audio_before_barge_ms,
        !old(signals).interrupted,
    ensures
        ({
            let (speech, heard) = audio::first_speech(
                old(detector).vad.heard(),
                audio::voice_frames(audio::ulaw_samples(bytes@)),
            );
            let ms = old(detector).speech_ms + 20;
            &&& final(detector).vad.heard() == heard
            &&& speech && ms >= turn.barge_in_speech_ms ==> {
                &&& res == Some(ms as u32)
                &&& final(signals).interrupted
                &&& final(detector).speech_ms == 0
            }
            &&& speech && ms < turn.barge_in_speech_ms ==> {
                &&& res is None
                &&& !final(signals).interrupted
                &&& final(detector).speech_ms == ms
            }
            &&& !speech ==> res is None && final(detector).speech_ms == 0
        }),
{
}

/// A mark that comes back is one fewer that is pending; where it was the last, the
/// agent is silent.
pub proof fn law_mark_came_back(signals: &mut RealtimeSignals, name: &str)
    requires
        call_ensures(mark_came_back, (signals, name), ()),
    ensures
        old(signals).pending_playback_marks > 0 ==> final(signals).pending_playback_marks
            == old(signals).pending_playback_marks - 1,
        old(signals).pending_playback_marks <= 1 ==> !final(signals).assistant_speaking
            && final(signals).pending_playback_marks == 0,
        old(signals).pending_playback_marks > 1 ==> final(signals).assistant_speaking
            == old(signals).assistant_speaking,
        final(signals).response_generation == old(signals).response_generation,
        final(signals).response_active == old(signals).response_active,
        final(signals).generated_audio_ms == old(signals).generated_audio_ms,
        final(signals).interrupted == old(signals).interrupted,
{
}

} // verus!
