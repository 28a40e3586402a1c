//! The voice: what it is told to say, and what becomes of its audio.

use crate::audio;
use crate::config::AppState;
use crate::humanize;
use crate::humanize::HumanizedSpeech;
use crate::json;
use crate::json::JsonTree;
use crate::payload;
use crate::signals::{RealtimeSignals, Signals};
use crate::text;
use crate::twilio;
use serde_json::Value;
use vstd::prelude::*;

verus! {

pub const CARTESIA_VERSION: &'static str = "2026-03-01";

/// Where the voice is reached.
pub fn cartesia_url() -> (res: String)
    ensures
        res@ == "wss://api.cartesia.ai/tts/websocket?cartesia_version="@ + CARTESIA_VERSION@,
{
    let mut res = "wss://api.cartesia.ai/tts/websocket?cartesia_version=".to_owned();
    res.append(CARTESIA_VERSION);
    res
}

// ---------------------------------------------------------------------------
// Contexts
// ---------------------------------------------------------------------------

/// A character that a context can be named with.
pub open spec fn is_plain(c: char) -> bool {
    ('0' <= c && c <= '9') || ('a' <= c && c <= 'z') || ('A' <= c && c <= 'Z') || c == '-' || c
        == '_'
}

pub open spec fn plain() -> spec_fn(char) -> bool {
    |c: char| is_plain(c)
}

/// The characters that a context can be named with.
pub open spec fn sanitized(s: Seq<char>) -> Seq<char> {
    s.filter(plain())
}

/// The characters that a context can be named with.
pub fn sanitize_context_id(value: &str) -> (res: String)
    ensures
        res@ == sanitized(value@),
{
    let chars = text::chars_of(value);
    let n: usize = chars.len();
    let mut res = String::new();
    proof {
        reveal(Seq::filter);
        assert(chars@.take(0) =~= Seq::<char>::empty());
        assert(res@ =~= sanitized(chars@.take(0)));
    }
    for i in 0..n
        invariant
            n == chars@.len(),
            res@ == sanitized(chars@.take(i as int)),
    {
        let c = chars[i];
        proof {
            reveal(Seq::filter);
            assert(chars@.take(i + 1).drop_last() =~= chars@.take(i as int));
            assert(plain()(c) == is_plain(c));
        }
        if ('0' <= c && c <= '9') || ('a' <= c && c <= 'z') || ('A' <= c && c <= 'Z') || c == '-'
            || c == '_' {
            res.push(c);
        }
    }
    assert(chars@.take(n as int) =~= chars@);
    res
}

/// The context of a reply: its stream and its number.
pub open spec fn context_name(stream_sid: Seq<char>, generation: nat) -> Seq<char> {
    "twilio-"@ + sanitized(stream_sid) + "-gen-"@ + text::decimal(generation)
}

/// The context of a reply.
pub fn context_id(stream_sid: &str, generation: u64) -> (res: String)
    ensures
        res@ == context_name(stream_sid@, generation as nat),
{
    let mut res = "twilio-".to_owned();
    res.append(sanitize_context_id(stream_sid).as_str());
    res.append("-gen-");
    res.append(text::decimal_text(generation).as_str());
    res
}

/// The last place up to `from` where `needle` stands in `s`.
pub open spec fn last_place(s: Seq<char>, needle: Seq<char>, from: int) -> Option<int>
    decreases from + 1,
{
    if from < 0 {
        None
    } else if text::occurs_at(s, needle, from) {
        Some(from)
    } else {
        last_place(s, needle, from - 1)
    }
}

/// The number of the reply that a context belongs to: what follows the last
/// `-gen-` in its name.
pub open spec fn generation_in(context: Seq<char>) -> Option<nat> {
    match last_place(context, "-gen-"@, context.len() as int) {
        Some(at) => text::parsed(context.skip(at + 5), u64::MAX as nat),
        None => None,
    }
}

/// The number of the reply that a context belongs to.
pub fn split_generation_from_context(context_id: &str) -> (res: Option<u64>)
    ensures
        res is Some <==> generation_in(context_id@) is Some,
        res matches Some(n) ==> generation_in(context_id@) == Some(n as nat),
{
    proof {
        reveal_strlit("-gen-");
    }
    let chars = text::chars_of(context_id);
    let needle = text::chars_of("-gen-");
    let n: usize = chars.len();
    let mut at: usize = n;
    loop
        invariant
            at <= n,
            n == chars@.len(),
            chars@ == context_id@,
            needle@ == "-gen-"@,
            "-gen-"@.len() == 5,
            last_place(context_id@, "-gen-"@, n as int) == last_place(
                context_id@,
                "-gen-"@,
                at as int,
            ),
        decreases at,
    {
        if text::occurs(chars.as_slice(), needle.as_slice(), at) {
            let rest = text::copy_range(chars.as_slice(), at + 5, n);
            assert(rest@ =~= context_id@.skip(at + 5));
            return text::parse_u64(text::text_of(rest.as_slice()).as_str());
        }
        if at == 0 {
            assert(last_place(context_id@, "-gen-"@, -1) is None);
            return None;
        }
        at -= 1;
    }
}

/// The number of the reply of a context, or that of the reply that may be
/// heard.
pub open spec fn generation_or(context: Seq<char>, s: Signals) -> u64 {
    match generation_in(context) {
        Some(n) => n as u64,
        None => s.response_generation,
    }
}

fn context_generation(context: &str, signals: &RealtimeSignals) -> (res: u64)
    ensures
        res == generation_or(context@, signals@),
{
    match split_generation_from_context(context) {
        Some(n) => n,
        None => signals.response_generation,
    }
}

// ---------------------------------------------------------------------------
// What the voice says
// ---------------------------------------------------------------------------

/// A message of the voice.
pub enum CartesiaEvent {
    Chunk { context_id: Option<String>, data: Option<String> },
    Done { context_id: Option<String> },
    Failure { context_id: Option<String> },
    Other,
}

/// What a message of the voice says.
pub ghost enum VoiceNews {
    Chunk { context_id: Option<Seq<char>>, data: Option<Seq<char>> },
    Done { context_id: Option<Seq<char>> },
    Failure { context_id: Option<Seq<char>> },
    Other,
}

impl View for CartesiaEvent {
    type V = VoiceNews;

    open spec fn view(&self) -> VoiceNews {
        match *self {
            CartesiaEvent::Chunk { context_id, data } => VoiceNews::Chunk {
                context_id: text::text_view(context_id),
                data: text::text_view(data),
            },
            CartesiaEvent::Done { context_id } => VoiceNews::Done {
                context_id: text::text_view(context_id),
            },
            CartesiaEvent::Failure { context_id } => VoiceNews::Failure {
                context_id: text::text_view(context_id),
            },
            CartesiaEvent::Other => VoiceNews::Other,
        }
    }
}

/// What a message of the voice says, by its `type`.
pub open spec fn voice_news_in(tree: JsonTree) -> VoiceNews {
    let context_id = tree.text_at("context_id"@);
    match tree.text_at("type"@) {
        Some(kind) => if kind == "chunk"@ {
            VoiceNews::Chunk { context_id, data: tree.text_at("data"@) }
        } else if kind == "done"@ {
            VoiceNews::Done { context_id }
        } else if kind == "error"@ {
            VoiceNews::Failure { context_id }
        } else {
            VoiceNews::Other
        },
        None => VoiceNews::Other,
    }
}

/// What a message of the voice says, by its `type`.
pub fn cartesia_event(value: &Value) -> (res: CartesiaEvent)
    ensures
        res@ == voice_news_in(json::json_tree(*value)),
{
    let kind = match json::text_at(value, "type") {
        Some(kind) => kind,
        None => {
            return CartesiaEvent::Other;
        },
    };
    let kind = kind.as_str();
    let context_id = json::text_at(value, "context_id");
    if text::same_text(kind, "chunk") {
        CartesiaEvent::Chunk { context_id, data: json::text_at(value, "data") }
    } else if text::same_text(kind, "done") {
        CartesiaEvent::Done { context_id }
    } else if text::same_text(kind, "error") {
        CartesiaEvent::Failure { context_id }
    } else {
        CartesiaEvent::Other
    }
}

/// What a message of the voice says, if it is JSON.
pub fn read_cartesia_event(text: &str) -> (res: Option<CartesiaEvent>)
    ensures
        res is Some <==> json::json_of_text(text@) is Some,
        res matches Some(event) ==> json::json_of_text(text@) matches Some(tree) && event@
            == voice_news_in(tree),
{
    match json::parse_json(text) {
        Some(value) => Some(cartesia_event(&value)),
        None => None,
    }
}

// ---------------------------------------------------------------------------
// Audio
// ---------------------------------------------------------------------------

/// The whole frames of 20 ms in mu-law audio.
pub open spec fn whole_frames(codes: Seq<u8>) -> Seq<Seq<u8>> {
    Seq::new(codes.len() / 160, |k: int| codes.subrange(160 * k, 160 * k + 160))
}

/// What is left of mu-law audio behind its whole frames.
pub open spec fn rest_of(codes: Seq<u8>) -> Seq<u8> {
    codes.skip(160 * (codes.len() / 160) as int)
}

pub open spec fn frame_bytes(frames: Seq<Vec<u8>>) -> Seq<Seq<u8>> {
    frames.map_values(|frame: Vec<u8>| frame@)
}

/// Cuts mu-law audio into whole frames and a rest.
fn cut_frames(codes: Vec<u8>) -> (res: (Vec<Vec<u8>>, Vec<u8>))
    ensures
        frame_bytes(res.0@) == whole_frames(codes@),
        res.1@ == rest_of(codes@),
{
    let ghost whole = codes@;
    let mut codes = codes;
    let mut frames: Vec<Vec<u8>> = Vec::new();
    let len: usize = codes.len();
    let count: usize = len / audio::TWILIO_ULAW_FRAME_BYTES;
    let mut k: usize = 0;
    assert(whole.skip(0) =~= whole);
    assert(frame_bytes(frames@) =~= whole_frames(whole).take(0));
    while k < count
        invariant
            k <= count,
            count == len / 160,
            len == whole.len(),
            codes@ == whole.skip(160 * k),
            frame_bytes(frames@) == whole_frames(whole).take(k as int),
        decreases count - k,
    {
        assert(160 * k + 160 <= len);
        let rest = codes.split_off(audio::TWILIO_ULAW_FRAME_BYTES);
        let ghost held = codes@;
        let ghost old_frames = frames@;
        frames.push(codes);
        proof {
            assert(held =~= whole.subrange(160 * k, 160 * k + 160));
            assert(rest@ =~= whole.skip(160 * (k + 1)));
            assert(frame_bytes(frames@) =~= frame_bytes(old_frames).push(held));
            assert(whole_frames(whole).take(k + 1) =~= whole_frames(whole).take(k as int).push(
                held,
            ));
        }
        codes = rest;
        k += 1;
    }
    assert(whole_frames(whole).take(count as int) =~= whole_frames(whole));
    (frames, codes)
}

/// The length of a frame: a millisecond at least.
pub open spec fn frame_ms(len: nat) -> nat {
    if len / 8 >= 1 {
        len / 8
    } else {
        1
    }
}

/// A frame on its way to the caller.
pub struct QueuedFrame {
    pub message: Value,
    /// How long it plays.
    pub audio_ms: u64,
    /// When its reply was asked for, if it is the first of it.
    pub asked_at: Option<u64>,
}

/// Counts a frame of a reply, and lets it go out.
pub fn queue_twilio_ulaw_frame(
    signals: &mut RealtimeSignals,
    stream_sid: &str,
    generation: u64,
    frame: &[u8],
) -> (res: QueuedFrame)
    requires
        old(signals).generated_audio_ms + frame_ms(frame@.len()) <= u64::MAX,
    ensures
        res.audio_ms == frame_ms(frame@.len()),
        json::json_tree(res.message) == twilio::media_tree(
            stream_sid@,
            generation,
            res.audio_ms,
            payload::base64_text(frame@),
        ),
        payload::base64_bytes(payload::base64_text(frame@)) == Some(frame@),
        res.asked_at is Some <==> old(signals)@.awaits(generation),
        res.asked_at matches Some(at) ==> old(signals)@.response_requested_at == Some(
            (generation, at),
        ),
        final(signals)@ == old(signals)@.generated(generation, res.audio_ms),
{
    let len: usize = frame.len();
    let ms: u64 = len as u64 / audio::ULAW_BYTES_PER_MS as u64;
    let audio_ms: u64 = if ms >= 1 {
        ms
    } else {
        1
    };
    let encoded = payload::encode_base64(frame);
    signals.generated_audio_ms = signals.generated_audio_ms + audio_ms;
    let asked_at = signals.first_audio(generation);
    let message = twilio::media_message(stream_sid, generation, audio_ms, encoded.as_str());
    QueuedFrame { message, audio_ms, asked_at }
}

// ---------------------------------------------------------------------------
// The voice at work
// ---------------------------------------------------------------------------

/// The reply that is being spoken.
pub struct CartesiaVoice {
    /// The context of the reply under way.
    pub active_context: Option<String>,
    /// Audio that does not fill a frame yet.
    pub ulaw_buffer: Vec<u8>,
}

/// The reply that is being spoken.
pub ghost struct Voice {
    pub active: Option<Seq<char>>,
    pub buffer: Seq<u8>,
}

impl View for CartesiaVoice {
    type V = Voice;

    open spec fn view(&self) -> Voice {
        Voice { active: text::text_view(self.active_context), buffer: self.ulaw_buffer@ }
    }
}

/// Frames that are to go out for a reply.
pub struct Framed {
    pub generation: u64,
    pub frames: Vec<Vec<u8>>,
}

/// What is to be done when the voice has ended a reply.
pub enum DoneAction {
    /// The reply is none that is being spoken.
    Ignore,
    /// Forget how the voice was shaped.
    DropVoice,
    /// Let the shaping come to its end and hand that to
    /// [`CartesiaVoice::last_frame`].
    Finish { generation: u64 },
}

impl Voice {
    /// The audio of a chunk, if it belongs to the reply under way and can be
    /// read.
    pub open spec fn accepts(self, context_id: Option<Seq<char>>, data: Option<Seq<char>>) -> Option<
        Seq<u8>,
    > {
        match (context_id, data) {
            (Some(context), Some(data)) => if self.active == Some(context) {
                payload::base64_bytes(data)
            } else {
                None
            },
            _ => None,
        }
    }

    /// The buffer with more audio.
    pub open spec fn with_audio(self, samples: Seq<i16>) -> Seq<u8> {
        self.buffer + audio::ulaw_codes(samples)
    }

    /// The context that a reply ends with: the one it names if that is under
    /// way, or else the one under way.
    pub open spec fn ended(self, context_id: Option<Seq<char>>) -> Option<Seq<char>> {
        match context_id {
            Some(context) => if self.active == Some(context) {
                Some(context)
            } else {
                None
            },
            None => self.active,
        }
    }

    /// The voice after the end of a reply: the buffer is kept only for the
    /// last audio of a reply that may be heard, or for another that is under
    /// way.
    pub open spec fn after_end(self, context_id: Option<Seq<char>>, s: Signals) -> Voice {
        match self.ended(context_id) {
            Some(context) => Voice {
                active: None,
                buffer: if generation_or(context, s) == s.response_generation {
                    self.buffer
                } else {
                    Seq::empty()
                },
            },
            None => if self.active is None {
                Voice { buffer: Seq::empty(), ..self }
            } else {
                self
            },
        }
    }

    /// What is to be done at the end of a reply.
    pub open spec fn end_action(self, context_id: Option<Seq<char>>, s: Signals) -> DoneAction {
        match self.ended(context_id) {
            Some(context) => if generation_or(context, s) == s.response_generation {
                DoneAction::Finish { generation: s.response_generation }
            } else {
                DoneAction::DropVoice
            },
            None => if self.active is None {
                DoneAction::DropVoice
            } else {
                DoneAction::Ignore
            },
        }
    }

    /// The context that a command to stop means.
    pub open spec fn meant(self, context_id: Option<Seq<char>>) -> Seq<char> {
        match context_id {
            Some(context) => context,
            None => twilio::text_or(self.active, Seq::empty()),
        }
    }
}

/// What the voice is asked to say.
pub open spec fn speak_tree(
    state: AppState,
    voice_id: Seq<char>,
    context: Seq<char>,
    transcript: Seq<char>,
) -> JsonTree {
    json::object(
        seq![
            ("model_id"@, JsonTree::Text(state.cartesia_model@)),
            ("transcript"@, JsonTree::Text(transcript)),
            (
                "voice"@,
                json::object(
                    seq![
                        ("mode"@, JsonTree::Text("id"@)),
                        ("id"@, JsonTree::Text(voice_id)),
                    ],
                ),
            ),
            ("language"@, JsonTree::Text(state.cartesia_language@)),
            ("context_id"@, JsonTree::Text(context)),
            (
                "output_format"@,
                json::object(
                    seq![
                        ("container"@, JsonTree::Text("raw"@)),
                        ("encoding"@, JsonTree::Text("pcm_s16le"@)),
                        ("sample_rate"@, JsonTree::Unsigned(8000)),
                    ],
                ),
            ),
            ("add_timestamps"@, JsonTree::Bool(false)),
            ("continue"@, JsonTree::Bool(false)),
        ],
    )
}

fn speak_message(state: &AppState, voice_id: &str, context: &str, transcript: &str) -> (res: Value)
    ensures
        json::json_tree(res) == speak_tree(*state, voice_id@, context@, transcript@),
{
    let mut voice: Vec<(String, Value)> = Vec::new();
    voice.push(json::text_entry("mode", "id"));
    voice.push(json::text_entry("id", voice_id));
    let ghost voice_trees = seq![
        ("mode"@, JsonTree::Text("id"@)),
        ("id"@, JsonTree::Text(voice_id@)),
    ];
    assert(json::entry_trees(voice@) =~= voice_trees);
    let mut format: Vec<(String, Value)> = Vec::new();
    format.push(json::text_entry("container", "raw"));
    format.push(json::text_entry("encoding", "pcm_s16le"));
    format.push(json::unsigned_entry("sample_rate", 8000));
    let ghost format_trees = seq![
        ("container"@, JsonTree::Text("raw"@)),
        ("encoding"@, JsonTree::Text("pcm_s16le"@)),
        ("sample_rate"@, JsonTree::Unsigned(8000)),
    ];
    assert(json::entry_trees(format@) =~= format_trees);
    let mut entries: Vec<(String, Value)> = Vec::new();
    entries.push(json::text_entry("model_id", state.cartesia_model.as_str()));
    entries.push(json::text_entry("transcript", transcript));
    entries.push(json::entry("voice", json::object_value(voice)));
    entries.push(json::text_entry("language", state.cartesia_language.as_str()));
    entries.push(json::text_entry("context_id", context));
    entries.push(json::entry("output_format", json::object_value(format)));
    entries.push(json::flag_entry("add_timestamps", false));
    entries.push(json::flag_entry("continue", false));
    assert(json::entry_trees(entries@) =~= seq![
        ("model_id"@, JsonTree::Text(state.cartesia_model@)),
        ("transcript"@, JsonTree::Text(transcript@)),
        ("voice"@, json::object(voice_trees)),
        ("language"@, JsonTree::Text(state.cartesia_language@)),
        ("context_id"@, JsonTree::Text(context@)),
        ("output_format"@, json::object(format_trees)),
        ("add_timestamps"@, JsonTree::Bool(false)),
        ("continue"@, JsonTree::Bool(false)),
    ]);
    json::object_value(entries)
}

/// The demand to stop the reply of a context.
pub open spec fn stop_tree(context: Seq<char>) -> JsonTree {
    json::object(
        seq![("context_id"@, JsonTree::Text(context)), ("cancel"@, JsonTree::Bool(true))],
    )
}

fn stop_message(context: &str) -> (res: Value)
    ensures
        json::json_tree(res) == stop_tree(context@),
{
    let mut entries: Vec<(String, Value)> = Vec::new();
    entries.push(json::text_entry("context_id", context));
    entries.push(json::flag_entry("cancel", true));
    assert(json::entry_trees(entries@) =~= seq![
        ("context_id"@, JsonTree::Text(context@)),
        ("cancel"@, JsonTree::Bool(true)),
    ]);
    json::object_value(entries)
}

/// A reply that is to be spoken.
pub struct Speaking {
    /// How the voice is to be shaped.
    pub speech: HumanizedSpeech,
    pub request: Value,
}

fn same_context(a: &Option<String>, b: &str) -> (res: bool)
    ensures
        res == (text::text_view(*a) == Some(b@)),
{
    match a {
        Some(a) => text::same_text(a.as_str(), b),
        None => false,
    }
}

impl CartesiaVoice {
    /// No reply is being spoken.
    pub fn new() -> (res: Self)
        ensures
            res@ == (Voice { active: None, buffer: Seq::empty() }),
    {
        CartesiaVoice { active_context: None, ulaw_buffer: Vec::new() }
    }

    /// A reply is to be spoken, if there is a voice to speak it.
    pub fn speak(&mut self, state: &AppState, stream_sid: &str, generation: u64, text: &str) -> (res:
        Option<Speaking>)
        ensures
            res is Some <==> state.cartesia_voice_id is Some,
            match res {
                Some(speaking) => {
                    let context = context_name(stream_sid@, generation as nat);
                    let speech = humanize::speech_of_text(text@, state.humanization.tone);
                    &&& speaking.speech@ == speech
                    &&& json::json_tree(speaking.request) == speak_tree(
                        *state,
                        state.cartesia_voice_id->0@,
                        context,
                        speech.text,
                    )
                    &&& final(self)@ == (Voice { active: Some(context), ..old(self)@ })
                },
                None => final(self)@ == old(self)@,
            },
    {
        let voice_id = match &state.cartesia_voice_id {
            Some(voice_id) => voice_id,
            None => {
                return None;
            },
        };
        let context = context_id(stream_sid, generation);
        let speech = HumanizedSpeech::from_spoken_text(text, state.humanization.tone);
        let request = speak_message(
            state,
            voice_id.as_str(),
            context.as_str(),
            speech.text.as_str(),
        );
        self.active_context = Some(context);
        Some(Speaking { speech, request })
    }

    /// A reply is to stop: that of a context, or else the one under way.
    /// Returns the demand, if there is a reply to stop.
    pub fn cancel(&mut self, context_id: Option<String>) -> (res: Option<Value>)
        ensures
            ({
                let context = old(self)@.meant(text::text_view(context_id));
                match res {
                    Some(demand) => {
                        &&& context.len() > 0
                        &&& json::json_tree(demand) == stop_tree(context)
                        &&& final(self)@ == (Voice { active: None, ..old(self)@ })
                    },
                    None => context.len() == 0 && final(self)@ == old(self)@,
                }
            }),
    {
        let context = match context_id {
            Some(context) => context,
            None => match &self.active_context {
                Some(context) => context.clone(),
                None => String::new(),
            },
        };
        if context.as_str().is_empty() {
            return None;
        }
        self.active_context = None;
        Some(stop_message(context.as_str()))
    }

    /// The samples of a chunk, if it belongs to the reply under way and can be
    /// read. They are to be shaped and handed to [`CartesiaVoice::take_audio`].
    pub fn open_chunk(&self, context_id: &Option<String>, data: &Option<String>) -> (res: Option<
        Vec<i16>,
    >)
        ensures
            match self@.accepts(text::text_view(*context_id), text::text_view(*data)) {
                Some(bytes) => res matches Some(samples) && samples@ == audio::pcm_samples(bytes),
                None => res is None,
            },
    {
        let context = match context_id {
            Some(context) => context,
            None => {
                return None;
            },
        };
        if !same_context(&self.active_context, context.as_str()) {
            return None;
        }
        let data = match data {
            Some(data) => data,
            None => {
                return None;
            },
        };
        match payload::decode_base64(data.as_str()) {
            Some(bytes) => Some(audio::pcm_s16le_to_i16(bytes.as_slice())),
            None => None,
        }
    }

    /// Takes shaped audio of a context. The whole frames go out, unless their
    /// reply may not be heard any more.
    pub fn take_audio(&mut self, context: &str, samples: &[i16], signals: &RealtimeSignals) -> (res:
        Framed)
        ensures
            res.generation == generation_or(context@, signals@),
            final(self).active_context == old(self).active_context,
            ({
                let all = old(self)@.with_audio(samples@);
                if res.generation == signals.response_generation {
                    &&& frame_bytes(res.frames@) == whole_frames(all)
                    &&& final(self)@.buffer == rest_of(all)
                } else {
                    &&& res.frames@.len() == 0
                    &&& final(self)@.buffer == all
                }
            }),
    {
        let mut codes = audio::pcm_i16_to_ulaw(samples);
        self.ulaw_buffer.append(&mut codes);
        let generation: u64 = context_generation(context, signals);
        if generation != signals.response_generation {
            return Framed { generation, frames: Vec::new() };
        }
        let mut buffer: Vec<u8> = Vec::new();
        std::mem::swap(&mut buffer, &mut self.ulaw_buffer);
        let (frames, rest) = cut_frames(buffer);
        self.ulaw_buffer = rest;
        Framed { generation, frames }
    }

    /// The voice has ended a reply.
    pub fn done(&mut self, context_id: Option<String>, signals: &RealtimeSignals) -> (res:
        DoneAction)
        ensures
            res == old(self)@.end_action(text::text_view(context_id), signals@),
            final(self)@ == old(self)@.after_end(text::text_view(context_id), signals@),
    {
        let context = match context_id {
            Some(context) => {
                if !same_context(&self.active_context, context.as_str()) {
                    if self.active_context.is_none() {
                        self.ulaw_buffer = Vec::new();
                        return DoneAction::DropVoice;
                    }
                    return DoneAction::Ignore;
                }
                context
            },
            None => match &self.active_context {
                Some(context) => context.clone(),
                None => {
                    self.ulaw_buffer = Vec::new();
                    return DoneAction::DropVoice;
                },
            },
        };
        self.active_context = None;
        let generation: u64 = context_generation(context.as_str(), signals);
        if generation != signals.response_generation {
            self.ulaw_buffer = Vec::new();
            return DoneAction::DropVoice;
        }
        DoneAction::Finish { generation }
    }

    /// The last audio of a reply, with what was left of it, if there is any.
    pub fn last_frame(&mut self, tail: &[i16]) -> (res: Option<Vec<u8>>)
        ensures
            match res {
                Some(frame) => frame@.len() > 0 && frame@ == old(self)@.with_audio(tail@),
                None => old(self)@.with_audio(tail@).len() == 0,
            },
            final(self)@ == (Voice { buffer: Seq::empty(), ..old(self)@ }),
    {
        let mut codes = audio::pcm_i16_to_ulaw(tail);
        self.ulaw_buffer.append(&mut codes);
        let mut frame: Vec<u8> = Vec::new();
        std::mem::swap(&mut frame, &mut self.ulaw_buffer);
        if frame.len() == 0 {
            assert(self.ulaw_buffer@ =~= Seq::<u8>::empty());
            return None;
        }
        Some(frame)
    }

    /// The voice has failed. Returns whether that ends the reply under way,
    /// which a failure of another context does not.
    pub fn failed(&self, context_id: &Option<String>, signals: &mut RealtimeSignals) -> (res: bool)
        ensures
            res == (text::text_view(*context_id) is None || self@.active == text::text_view(
                *context_id,
            )),
            final(signals)@ == if res {
                Signals { response_active: false, ..old(signals)@ }
            } else {
                old(signals)@
            },
    {
        match context_id {
            Some(context) => if !same_context(&self.active_context, context.as_str()) {
                return false;
            },
            None => {},
        }
        signals.response_over();
        true
    }
}

// ---------------------------------------------------------------------------
// Laws
// ---------------------------------------------------------------------------

/// A context tells the number of its reply, whatever the stream is called.
pub proof fn law_context_round_trip(stream_sid: Seq<char>, generation: u64)
    ensures
        generation_in(context_name(stream_sid, generation as nat)) == Some(generation as nat),
{
    reveal_strlit("-gen-");
    let head = "twilio-"@ + sanitized(stream_sid);
    let digits = text::decimal(generation as nat);
    let name = context_name(stream_sid, generation as nat);
    let at = head.len() as int;
    text::lemma_decimal(generation as nat);
    assert(name.subrange(at, at + 5) =~= "-gen-"@);
    assert(name.skip(at + 5) =~= digits);
    text::law_decimal_round_trip(generation as nat, u64::MAX as nat);
    assert forall|p: int| at < p implies !(#[trigger] text::occurs_at(name, "-gen-"@, p)) by {
        if text::occurs_at(name, "-gen-"@, p) {
            let part = name.subrange(p, p + 5);
            assert(part[0] == '-' && part[1] == 'g');
            assert(name[p] == '-' && name[p + 1] == 'g');
            if p >= at + 5 {
                assert(text::is_digit(digits[p - at - 5]));
            } else if p == at + 4 {
                assert(text::is_digit(digits[0]));
                assert(name[p + 1] == digits[0]);
            } else {
                assert(name[p] == "-gen-"@[p - at]);
            }
        }
    }
    lemma_last_place(name, "-gen-"@, at, name.len() as int);
}

proof fn lemma_last_place(s: Seq<char>, needle: Seq<char>, at: int, from: int)
    requires
        0 <= at <= from,
        text::occurs_at(s, needle, at),
        forall|p: int| at < p ==> !(#[trigger] text::occurs_at(s, needle, p)),
    ensures
        last_place(s, needle, from) == Some(at),
    decreases from - at,
{
    if from > at {
        assert(!text::occurs_at(s, needle, from));
        lemma_last_place(s, needle, at, from - 1);
    }
}

/// Only characters that a context can be named with are left, and all of them.
pub proof fn law_sanitized_is_plain(s: Seq<char>)
    ensures
        forall|i: int| 0 <= i < sanitized(s).len() ==> is_plain(#[trigger] sanitized(s)[i]),
        forall|c: char| is_plain(c) && s.contains(c) ==> #[trigger] sanitized(s).contains(c),
        sanitized(sanitized(s)) == sanitized(s),
{
    assert forall|i: int| 0 <= i < sanitized(s).len() implies is_plain(
        #[trigger] sanitized(s)[i],
    ) by {
        s.lemma_filter_pred(plain(), i);
    }
    assert forall|c: char| is_plain(c) && s.contains(c) implies #[trigger] sanitized(s).contains(
        c,
    ) by {
        let i = choose|i: int| 0 <= i < s.len() && s[i] == c;
        s.lemma_filter_contains(plain(), i);
    }
    lemma_plain_stays(sanitized(s));
}

proof fn lemma_plain_stays(s: Seq<char>)
    requires
        forall|i: int| 0 <= i < s.len() ==> is_plain(#[trigger] s[i]),
    ensures
        sanitized(s) == s,
    decreases s.len(),
{
    reveal(Seq::filter);
    if s.len() > 0 {
        let front = s.drop_last();
        assert forall|i: int| 0 <= i < front.len() implies is_plain(#[trigger] front[i]) by {
            assert(is_plain(s[i]));
        }
        lemma_plain_stays(front);
        assert(is_plain(s[s.len() - 1]));
        assert(plain()(s.last()));
        assert(front.push(s.last()) =~= s);
    } else {
        assert(sanitized(s) =~= s);
    }
}

/// No audio is lost or said twice on the way into frames: the frames in order
/// and the rest behind them are the audio that came in, each frame is 20 ms
/// long, and the rest is shorter.
pub proof fn law_frames_keep_audio(codes: Seq<u8>)
    ensures
        whole_frames(codes).flatten_alt() + rest_of(codes) == codes,
        forall|k: int|
            0 <= k < whole_frames(codes).len() ==> (#[trigger] whole_frames(codes)[k]).len()
                == audio::TWILIO_ULAW_FRAME_BYTES,
        rest_of(codes).len() < audio::TWILIO_ULAW_FRAME_BYTES,
{
    let n = whole_frames(codes).len();
    lemma_frames_up_to(codes, n as int);
    assert(whole_frames(codes).take(n as int) =~= whole_frames(codes));
    assert(codes.take(160 * n as int) + codes.skip(160 * n as int) =~= codes);
}

proof fn lemma_frames_up_to(codes: Seq<u8>, k: int)
    requires
        0 <= k <= whole_frames(codes).len(),
    ensures
        whole_frames(codes).take(k).flatten_alt() == codes.take(160 * k),
    decreases k,
{
    let frames = whole_frames(codes);
    if k == 0 {
        assert(frames.take(0) =~= Seq::<Seq<u8>>::empty());
        assert(codes.take(0) =~= Seq::<u8>::empty());
    } else {
        lemma_frames_up_to(codes, k - 1);
        assert(frames.take(k).drop_last() =~= frames.take(k - 1));
        assert(frames.take(k).last() == frames[k - 1]);
        assert(codes.take(160 * (k - 1)) + codes.subrange(160 * (k - 1), 160 * k)
            =~= codes.take(160 * k));
    }
}

/// A reply that was stopped says nothing more: no chunk of its context is
/// accepted, and its end is no end of a reply that may be heard.
pub proof fn law_stopped_reply_is_silent(
    voice: Voice,
    context_id: Option<Seq<char>>,
    data: Option<Seq<char>>,
    s: Signals,
)
    requires
        voice.active is None,
    ensures
        voice.accepts(context_id, data) is None,
        voice.end_action(context_id, s) == DoneAction::DropVoice,
        voice.after_end(context_id, s).buffer.len() == 0,
{
}

/// Audio of a reply that the caller has interrupted goes nowhere: its context
/// still names the old reply, and that is not the one that may be heard.
pub proof fn law_interrupted_reply_sends_nothing(stream_sid: Seq<char>, s: Signals)
    ensures
        ({
            let context = context_name(stream_sid, s.response_generation as nat);
            let after = twilio::cut_off(s);
            &&& generation_or(context, s) == s.response_generation
            &&& generation_or(context, after) != after.response_generation
        }),
{
    law_context_round_trip(stream_sid, s.response_generation);
}

/// Letters and digits of ASCII, hyphens and underscores are kept, in their order,
/// and every other character is left out.
pub proof fn law_plain_characters_are_kept(s: Seq<char>, c: char)
    ensures
        sanitized(Seq::empty()) == Seq::<char>::empty(),
        48 <= c as u32 <= 57 || 65 <= c as u32 <= 90 || 97 <= c as u32 <= 122 || c == '-' || c
            == '_' ==> sanitized(s.push(c)) == sanitized(s).push(c),
        !(48 <= c as u32 <= 57 || 65 <= c as u32 <= 90 || 97 <= c as u32 <= 122 || c == '-' || c
            == '_') ==> sanitized(s.push(c)) == sanitized(s),
{
    reveal(Seq::filter);
    assert(s.push(c).drop_last() =~= s);
}

/// What stands behind the last `-gen-` of a context is read as a number, whatever
/// stands before it.
pub proof fn law_generation_is_read(head: Seq<char>, tail: Seq<char>)
    requires
        !tail.contains('-'),
    ensures
        generation_in(head + "-gen-"@ + tail) == text::parsed(tail, u64::MAX as nat),
{
    reveal_strlit("-gen-");
    let name = head + "-gen-"@ + tail;
    let at = head.len() as int;
    assert(name.subrange(at, at + 5) =~= "-gen-"@);
    assert(name.skip(at + 5) =~= tail);
    assert forall|p: int| at < p implies !(#[trigger] text::occurs_at(name, "-gen-"@, p)) by {
        if text::occurs_at(name, "-gen-"@, p) {
            let part = name.subrange(p, p + 5);
            assert(part[0] == '-' && part[4] == '-');
            assert(name[p] == '-' && name[p + 4] == '-');
            assert(name[p + 4] == tail[p - at - 1]);
        }
    }
    lemma_last_place(name, "-gen-"@, at, name.len() as int);
}

proof fn lemma_no_place(s: Seq<char>, needle: Seq<char>, from: int)
    requires
        !text::contains(s, needle),
    ensures
        last_place(s, needle, from) is None,
    decreases from + 1,
{
    if from >= 0 {
        assert(!text::occurs_at(s, needle, from));
        lemma_no_place(s, needle, from - 1);
    }
}

/// A context without `-gen-` has no number of its own: its audio is that of the
/// reply that may be heard. Of any other its own number counts, if it has one
/// that can be read.
pub proof fn law_unnumbered_context_is_the_current_one(context: Seq<char>, s: Signals)
    ensures
        !text::contains(context, "-gen-"@) ==> generation_in(context) is None,
        generation_in(context) is None ==> generation_or(context, s) == s.response_generation,
        generation_in(context) matches Some(n) ==> generation_or(context, s) == n as u64,
{
    if !text::contains(context, "-gen-"@) {
        lemma_no_place(context, "-gen-"@, context.len() as int);
    }
}

/// Two replies of a stream have two contexts.
pub proof fn law_contexts_differ(stream_sid: Seq<char>, generation: u64, other: u64)
    requires
        generation != other,
    ensures
        context_name(stream_sid, generation as nat) != context_name(stream_sid, other as nat),
{
    law_context_round_trip(stream_sid, generation);
    law_context_round_trip(stream_sid, other);
}

/// A context begins with `twilio-` and the name of its stream, as far as a
/// context can be named with it, and ends with `-gen-` and the number of its
/// reply.
pub proof fn law_context_tells_its_stream(stream_sid: Seq<char>, generation: nat)
    ensures
        ({
            let name = context_name(stream_sid, generation);
            let stream = sanitized(stream_sid);
            let n = stream.len() as int;
            &&& name.len() > n + 12
            &&& name.take(7) == "twilio-"@
            &&& name.subrange(7, 7 + n) == stream
            &&& name.subrange(7 + n, 12 + n) == "-gen-"@
            &&& name.skip(12 + n) == text::decimal(generation)
            &&& context_name(stream, generation) == name
        }),
{
    reveal_strlit("twilio-");
    reveal_strlit("-gen-");
    law_sanitized_is_plain(stream_sid);
    text::lemma_decimal(generation);
    let name = context_name(stream_sid, generation);
    let stream = sanitized(stream_sid);
    let n = stream.len() as int;
    assert(name.take(7) =~= "twilio-"@);
    assert(name.subrange(7, 7 + n) =~= stream);
    assert(name.subrange(7 + n, 12 + n) =~= "-gen-"@);
    assert(name.skip(12 + n) =~= text::decimal(generation));
}

/// A message of the voice is a chunk, an end or a failure by its `type`; it keeps
/// the context and the data it came with. Any other is of no account.
pub proof fn law_voice_messages_are_read(tree: JsonTree)
    ensures
        ({
            let kind = tree.text_at("type"@);
            let context_id = tree.text_at("context_id"@);
            &&& kind == Some("chunk"@) ==> voice_news_in(tree) == (VoiceNews::Chunk {
                context_id,
                data: tree.text_at("data"@),
            })
            &&& kind == Some("done"@) ==> voice_news_in(tree) == (VoiceNews::Done { context_id })
            &&& kind == Some("error"@) ==> voice_news_in(tree) == (VoiceNews::Failure {
                context_id,
            })
            &&& kind != Some("chunk"@) && kind != Some("done"@) && kind != Some("error"@)
                ==> voice_news_in(tree) == VoiceNews::Other
        }),
{
    reveal_strlit("chunk");
    reveal_strlit("done");
    reveal_strlit("error");
    assert("chunk"@[0] == 'c');
    assert("done"@[0] == 'd');
    assert("error"@[0] == 'e');
}

/// A frame lasts a millisecond for eight of its bytes, and one at least.
pub proof fn law_frame_length(len: nat)
    ensures
        len < 8 ==> frame_ms(len) == 1,
        len >= 8 ==> 8 * frame_ms(len) <= len < 8 * frame_ms(len) + 8,
{
}

/// Audio is cut every 160 bytes, from the front, as often as there are as many
/// left: so more audio behind it changes no frame that is whole.
pub proof fn law_frames_are_cut_in_order(codes: Seq<u8>, more: Seq<u8>, k: int)
    ensures
        160 * whole_frames(codes).len() <= codes.len() < 160 * whole_frames(codes).len() + 160,
        0 <= k < whole_frames(codes).len() ==> {
            &&& whole_frames(codes)[k] == codes.subrange(160 * k, 160 * k + 160)
            &&& whole_frames(codes + more)[k] == whole_frames(codes)[k]
        },
        rest_of(codes) == codes.skip(160 * whole_frames(codes).len() as int),
        whole_frames(codes + more) == whole_frames(codes) + whole_frames(rest_of(codes) + more),
        rest_of(codes + more) == rest_of(rest_of(codes) + more),
{
    let n = (codes.len() / 160) as int;
    let all = codes + more;
    let rest = rest_of(codes) + more;
    assert(rest =~= all.skip(160 * n));
    assert((all.len() as int) / 160 == n + (rest.len() as int) / 160);
    assert forall|i: int| 0 <= i < n implies #[trigger] all.subrange(160 * i, 160 * i + 160)
        =~= codes.subrange(160 * i, 160 * i + 160) by {}
    assert(whole_frames(all) =~= whole_frames(codes) + whole_frames(rest)) by {
        assert forall|i: int| 0 <= i < whole_frames(all).len() implies #[trigger] whole_frames(
            all,
        )[i] == (whole_frames(codes) + whole_frames(rest))[i] by {
            if i >= n {
                let j = i - n;
                assert(rest.subrange(160 * j, 160 * j + 160) =~= all.subrange(
                    160 * i,
                    160 * i + 160,
                ));
            }
        }
    }
    assert(rest_of(all) =~= rest_of(rest));
    if 0 <= k < n {
        assert(all.subrange(160 * k, 160 * k + 160) =~= codes.subrange(160 * k, 160 * k + 160));
    }
}

/// A chunk is heard where it names the reply under way and its data can be read:
/// then all of its bytes are. One without a context, one of another context and
/// one without data is not.
pub proof fn law_chunks_of_the_reply_are_heard(voice: Voice, context: Seq<char>, data: Seq<char>)
    ensures
        voice.active == Some(context) ==> voice.accepts(Some(context), Some(data))
            == payload::base64_bytes(data),
        voice.active != Some(context) ==> voice.accepts(Some(context), Some(data)) is None,
        voice.accepts(None, Some(data)) is None,
        voice.accepts(Some(context), None) is None,
        voice.accepts(None, None) is None,
{
}

/// More audio goes behind what waits, one byte for each sample.
pub proof fn law_audio_queues_up(voice: Voice, samples: Seq<i16>, i: int)
    ensures
        voice.with_audio(samples).len() == voice.buffer.len() + samples.len(),
        0 <= i < voice.buffer.len() ==> voice.with_audio(samples)[i] == voice.buffer[i],
        0 <= i < samples.len() ==> voice.with_audio(samples)[voice.buffer.len() + i]
            == audio::ulaw_code(samples[i] as int) as u8,
{
}

/// The end of the reply under way, named or not, ends it: where it may still be
/// heard, what waits is kept for its last audio, and otherwise it is dropped. The
/// end of another reply changes nothing while one is under way; while none is,
/// what waits is dropped.
pub proof fn law_replies_end(voice: Voice, context: Seq<char>, other: Seq<char>, s: Signals)
    requires
        context != other,
    ensures
        ({
            let speaking = Voice { active: Some(context), ..voice };
            let heard = generation_or(context, s) == s.response_generation;
            let silent = Voice { active: None, ..voice };
            &&& heard ==> {
                &&& speaking.end_action(Some(context), s) == (DoneAction::Finish {
                    generation: s.response_generation,
                })
                &&& speaking.after_end(Some(context), s) == silent
            }
            &&& !heard ==> {
                &&& speaking.end_action(Some(context), s) == DoneAction::DropVoice
                &&& speaking.after_end(Some(context), s).active is None
                &&& speaking.after_end(Some(context), s).buffer.len() == 0
            }
            &&& speaking.end_action(None, s) == speaking.end_action(Some(context), s)
            &&& speaking.after_end(None, s) == speaking.after_end(Some(context), s)
            &&& speaking.end_action(Some(other), s) == DoneAction::Ignore
            &&& speaking.after_end(Some(other), s) == speaking
            &&& silent.end_action(Some(other), s) == DoneAction::DropVoice
            &&& silent.end_action(None, s) == DoneAction::DropVoice
            &&& silent.after_end(Some(other), s).buffer.len() == 0
            &&& silent.after_end(None, s).buffer.len() == 0
            &&& silent.after_end(Some(other), s).active is None
            &&& silent.after_end(None, s).active is None
        }),
{
}

/// A command to stop means the reply it names, or else the one under way, or none
/// where none is.
pub proof fn law_reply_that_is_meant(voice: Voice, context: Seq<char>)
    ensures
        voice.meant(Some(context)) == context,
        voice.active == Some(context) ==> voice.meant(None) == context,
        voice.active is None ==> voice.meant(None).len() == 0,
{
}

/// What the voice is asked for can be read back: the very text, the voice, the
/// context, the model and the language, and samples of sixteen bits at 8 kHz
/// without a container.
pub proof fn law_voice_is_asked_for(
    state: AppState,
    voice_id: Seq<char>,
    context: Seq<char>,
    transcript: Seq<char>,
)
    ensures
        ({
            let tree = speak_tree(state, voice_id, context, transcript);
            &&& tree.text_at("transcript"@) == Some(transcript)
            &&& tree.text_at("context_id"@) == Some(context)
            &&& tree.text_at("model_id"@) == Some(state.cartesia_model@)
            &&& tree.text_at("language"@) == Some(state.cartesia_language@)
            &&& tree.text_in("voice"@, "id"@) == Some(voice_id)
            &&& tree.text_in("voice"@, "mode"@) == Some("id"@)
            &&& tree.text_in("output_format"@, "encoding"@) == Some("pcm_s16le"@)
            &&& tree.text_in("output_format"@, "container"@) == Some("raw"@)
            &&& tree.member("output_format"@) matches Some(format) && format.unsigned_at(
                "sample_rate"@,
            ) == Some(8000u64)
            &&& tree.flag_at("add_timestamps"@) == Some(false)
            &&& tree.flag_at("continue"@) == Some(false)
            &&& stop_tree(context).text_at("context_id"@) == Some(context)
            &&& stop_tree(context).flag_at("cancel"@) == Some(true)
        }),
{
    reveal_strlit("model_id");
    reveal_strlit("transcript");
    reveal_strlit("voice");
    reveal_strlit("language");
    reveal_strlit("context_id");
    reveal_strlit("output_format");
    reveal_strlit("add_timestamps");
    reveal_strlit("continue");
    reveal_strlit("mode");
    reveal_strlit("id");
    reveal_strlit("container");
    reveal_strlit("encoding");
    reveal_strlit("sample_rate");
    reveal_strlit("cancel");
    assert("model_id"@.len() == 8 && "model_id"@[0] == 'm');
    assert("transcript"@.len() == 10 && "transcript"@[0] == 't');
    assert("voice"@.len() == 5);
    assert("language"@.len() == 8 && "language"@[0] == 'l');
    assert("context_id"@.len() == 10 && "context_id"@[0] == 'c');
    assert("output_format"@.len() == 13);
    assert("add_timestamps"@.len() == 14);
    assert("continue"@.len() == 8 && "continue"@[0] == 'c');
    assert("mode"@.len() == 4);
    assert("id"@.len() == 2);
    assert("container"@.len() == 9);
    assert("encoding"@.len() == 8);
    assert("sample_rate"@.len() == 11);
    assert("cancel"@.len() == 6);
    let voice = seq![("mode"@, JsonTree::Text("id"@)), ("id"@, JsonTree::Text(voice_id))];
    let format = seq![
        ("container"@, JsonTree::Text("raw"@)),
        ("encoding"@, JsonTree::Text("pcm_s16le"@)),
        ("sample_rate"@, JsonTree::Unsigned(8000)),
    ];
    let entries = seq![
        ("model_id"@, JsonTree::Text(state.cartesia_model@)),
        ("transcript"@, JsonTree::Text(transcript)),
        ("voice"@, json::object(voice)),
        ("language"@, JsonTree::Text(state.cartesia_language@)),
        ("context_id"@, JsonTree::Text(context)),
        ("output_format"@, json::object(format)),
        ("add_timestamps"@, JsonTree::Bool(false)),
        ("continue"@, JsonTree::Bool(false)),
    ];
    json::law_object_holds_its_entries(voice, 0);
    json::law_object_holds_its_entries(voice, 1);
    json::law_object_holds_its_entries(format, 0);
    json::law_object_holds_its_entries(format, 1);
    json::law_object_holds_its_entries(format, 2);
    json::law_object_holds_its_entries(entries, 0);
    json::law_object_holds_its_entries(entries, 1);
    json::law_object_holds_its_entries(entries, 2);
    json::law_object_holds_its_entries(entries, 3);
    json::law_object_holds_its_entries(entries, 4);
    json::law_object_holds_its_entries(entries, 5);
    json::law_object_holds_its_entries(entries, 6);
    json::law_object_holds_its_entries(entries, 7);
    let stop = seq![("context_id"@, JsonTree::Text(context)), ("cancel"@, JsonTree::Bool(true))];
    json::law_object_holds_its_entries(stop, 0);
    json::law_object_holds_its_entries(stop, 1);
}

/// Shaped audio goes behind what waits. Where the reply of its context may be
/// heard, all whole frames of 160 bytes go out and less than one waits; otherwise
/// none goes out, and all of it waits. The reply under way stays the same.
pub proof fn law_take_audio(
    voice: &mut CartesiaVoice,
    context: &str,
    samples: &[i16],
    signals: &RealtimeSignals,
    res: Framed,
)
    requires
        call_ensures(CartesiaVoice::take_audio, (voice, context, samples, signals), res),
    ensures
        ({
            let waited = old(voice)@.buffer;
            let all = waited.len() + samples@.len();
            let heard = generation_in(context@) is None || generation_in(context@) == Some(
                signals.response_generation as nat,
            );
            &&& final(voice)@.active == old(voice)@.active
            &&& generation_in(context@) is None ==> res.generation == signals.response_generation
            &&& generation_in(context@) matches Some(n) ==> res.generation == n as u64
            &&& heard ==> {
                &&& 160 * res.frames@.len() <= all < 160 * res.frames@.len() + 160
                &&& final(voice)@.buffer.len() == all - 160 * res.frames@.len()
            }
            &&& res.generation != signals.response_generation ==> {
                &&& res.frames@.len() == 0
                &&& final(voice)@.buffer.len() == all
                &&& final(voice)@.buffer.take(waited.len() as int) == waited
            }
        }),
{
    let all = old(voice)@.with_audio(samples@);
    assert(frame_bytes(res.frames@).len() == res.frames@.len());
    law_frames_are_cut_in_order(all, Seq::empty(), 0);
    assert(all.take(old(voice)@.buffer.len() as int) =~= old(voice)@.buffer);
}

/// A command to stop stops the reply it names, or else the one under way: the
/// voice is told so by name, and none is under way then. Where there is nothing to
/// stop, nothing changes.
pub proof fn law_cancel(voice: &mut CartesiaVoice, context_id: Option<String>, res: Option<Value>)
    requires
        call_ensures(CartesiaVoice::cancel, (voice, context_id), res),
    ensures
        final(voice)@.buffer == old(voice)@.buffer,
        context_id is None && old(voice)@.active is None ==> res is None && final(voice)@.active
            == old(voice)@.active,
        context_id matches Some(context) ==> (context@.len() > 0 <==> res is Some),
        context_id is None && old(voice)@.active is Some ==> (old(voice)@.active->0.len() > 0
            <==> res is Some),
        res is Some ==> final(voice)@.active is None,
        res is None ==> final(voice)@.active == old(voice)@.active,
        res matches Some(demand) ==> {
            let tree = json::json_tree(demand);
            &&& tree.flag_at("cancel"@) == Some(true)
            &&& context_id matches Some(context) ==> tree.text_at("context_id"@) == Some(context@)
            &&& context_id is None ==> tree.text_at("context_id"@) == old(voice)@.active
        },
{
    reveal_strlit("context_id");
    reveal_strlit("cancel");
    assert("context_id"@.len() == 10);
    assert("cancel"@.len() == 6);
    if res is Some {
        let context = old(voice)@.meant(text::text_view(context_id));
        let stop = seq![
            ("context_id"@, JsonTree::Text(context)),
            ("cancel"@, JsonTree::Bool(true)),
        ];
        json::law_object_holds_its_entries(stop, 0);
        json::law_object_holds_its_entries(stop, 1);
    }
}

/// The last audio of a reply is what waits and what is left of the shaping, all of
/// it in one frame, if there is any; nothing waits then.
pub proof fn law_last_frame(
    voice: &mut CartesiaVoice,
    tail: &[i16],
    res: Option<Vec<u8>>,
)
    requires
        call_ensures(CartesiaVoice::last_frame, (voice, tail), res),
    ensures
        final(voice)@.buffer.len() == 0,
        final(voice)@.active == old(voice)@.active,
        res is None <==> old(voice)@.buffer.len() == 0 && tail@.len() == 0,
        res matches Some(frame) ==> {
            &&& frame@.len() == old(voice)@.buffer.len() + tail@.len()
            &&& frame@.take(old(voice)@.buffer.len() as int) == old(voice)@.buffer
        },
{
    let all = old(voice)@.with_audio(tail@);
    assert(all.take(old(voice)@.buffer.len() as int) =~= old(voice)@.buffer);
}

/// A failure ends the reply under way where it names that reply or none, and
/// changes nothing where it names another.
pub proof fn law_failed(
    voice: &CartesiaVoice,
    context_id: &Option<String>,
    signals: &mut RealtimeSignals,
    res: bool,
)
    requires
        call_ensures(CartesiaVoice::failed, (voice, context_id, signals), res),
    ensures
        *context_id is None ==> res,
        *context_id matches Some(context) ==> (res <==> voice@.active == Some(context@)),
        res ==> final(signals)@ == (Signals { response_active: false, ..old(signals)@ }),
        !res ==> final(signals)@ == old(signals)@,
{
}

/// A frame goes out as it is, for its stream and its reply, and is counted with
/// its length; the first of a reply that is waited for ends the wait.
pub proof fn law_queue_twilio_ulaw_frame(
    signals: &mut RealtimeSignals,
    stream_sid: &str,
    generation: u64,
    frame: &[u8],
    res: QueuedFrame,
)
    requires
        call_ensures(
            queue_twilio_ulaw_frame,
            (signals, stream_sid, generation, frame),
            res,
        ),
        old(signals).generated_audio_ms + frame@.len() + 1 <= u64::MAX,
    ensures
        ({
            let tree = json::json_tree(res.message);
            let asked = old(signals)@.response_requested_at;
            let first = asked matches Some(when) && when.0 == generation;
            &&& frame@.len() < 16 ==> res.audio_ms == 1
            &&& frame@.len() >= 8 ==> 8 * res.audio_ms <= frame@.len() < 8 * res.audio_ms + 8
            &&& tree.text_at("streamSid"@) == Some(stream_sid@)
            &&& tree.unsigned_at("generation"@) == Some(generation)
            &&& tree.unsigned_at("audio_ms"@) == Some(res.audio_ms)
            &&& tree.text_in("media"@, "payload"@) matches Some(payload) && payload::base64_bytes(
                payload,
            ) == Some(frame@)
            &&& first ==> res.asked_at == Some((asked->0).1)
            &&& !first ==> res.asked_at is None
            &&& final(signals)@ == (Signals {
                generated_audio_ms: (old(signals).generated_audio_ms + res.audio_ms) as u64,
                response_requested_at: if first {
                    None
                } else {
                    asked
                },
                ..old(signals)@
            })
        }),
{
    twilio::law_messages_for_the_caller(
        stream_sid@,
        generation,
        res.audio_ms,
        payload::base64_text(frame@),
    );
}

/// A reply is spoken where there is a voice: the voice is asked for the very text,
/// under the context of the stream and the reply, and that reply is under way
/// then. What waits stays.
pub proof fn law_speak(
    voice: &mut CartesiaVoice,
    state: &AppState,
    stream_sid: &str,
    generation: u64,
    text: &str,
    res: Option<Speaking>,
)
    requires
        call_ensures(CartesiaVoice::speak, (voice, state, stream_sid, generation, text), res),
    ensures
        state.cartesia_voice_id is None ==> res is None && final(voice)@ == old(voice)@,
        final(voice)@.buffer == old(voice)@.buffer,
        state.cartesia_voice_id matches Some(voice_id) ==> {
            let context = context_name(stream_sid@, generation as nat);
            let tree = json::json_tree(res->0.request);
            &&& res is Some
            &&& res->0.speech@ == humanize::speech_of_text(text@, state.humanization.tone)
            &&& tree.text_at("transcript"@) == Some(text@)
            &&& tree.text_at("context_id"@) == Some(context)
            &&& tree.text_in("voice"@, "id"@) == Some(voice_id@)
            &&& tree.text_at("model_id"@) == Some(state.cartesia_model@)
            &&& tree.text_at("language"@) == Some(state.cartesia_language@)
            &&& final(voice)@.active == Some(context)
            &&& generation_in(context) == Some(generation as nat)
        },
{
    if state.cartesia_voice_id is Some {
        law_voice_is_asked_for(
            *state,
            state.cartesia_voice_id->0@,
            context_name(stream_sid@, generation as nat),
            text@,
        );
        law_context_round_trip(stream_sid@, generation);
    }
}

/// A message of the voice is heard exactly where it is JSON.
pub proof fn law_read_cartesia_event(text: &str, tree: JsonTree, res: Option<CartesiaEvent>)
    requires
        call_ensures(read_cartesia_event, (text,), res),
    ensures
        json::json_of_text(text@) is None ==> res is None,
        json::json_of_text(text@) == Some(tree) ==> res is Some,
        json::json_of_text(text@) == Some(tree) && tree.text_at("type"@) == Some("chunk"@)
            ==> res->0@ == (VoiceNews::Chunk {
            context_id: tree.text_at("context_id"@),
            data: tree.text_at("data"@),
        }),
{
}

/// A chunk of the reply under way is opened sample by sample where it can be read,
/// and no other is.
pub proof fn law_open_chunk(
    voice: &CartesiaVoice,
    context_id: &Option<String>,
    data: &Option<String>,
    res: Option<Vec<i16>>,
)
    requires
        call_ensures(CartesiaVoice::open_chunk, (voice, context_id, data), res),
    ensures
        ({
            let context = text::text_view(*context_id);
            let read = *data is Some && payload::base64_bytes(data->0@) is Some;
            &&& res is Some <==> context is Some && voice@.active == context && read
            &&& res is Some ==> res->0@ == audio::pcm_samples(payload::base64_bytes(data->0@)->0)
        }),
{
}

/// The context of a reply names its number, and the number is read from it again.
pub proof fn law_context_id(
    stream_sid: &str,
    generation: u64,
    context: String,
    name: &str,
    res: Option<u64>,
)
    requires
        call_ensures(context_id, (stream_sid, generation), context),
        name@ == context@,
        call_ensures(split_generation_from_context, (name,), res),
    ensures
        res == Some(generation),
{
    law_context_round_trip(stream_sid@, generation);
}

/// The end of the reply under way lets its last audio go out, where it may still
/// be heard; none is under way then. The end of another reply changes nothing.
pub proof fn law_done(
    voice: &mut CartesiaVoice,
    context_id: Option<String>,
    signals: &RealtimeSignals,
    res: DoneAction,
)
    requires
        call_ensures(CartesiaVoice::done, (voice, context_id, signals), res),
        old(voice)@.active is Some,
    ensures
        ({
            let active = old(voice)@.active->0;
            let its_own = context_id is None || context_id->0@ == active;
            let number = generation_in(active);
            let heard = number is None || number->0 as u64 == signals.response_generation;
            &&& its_own && heard ==> {
                &&& res == (DoneAction::Finish { generation: signals.response_generation })
                &&& final(voice)@.active is None
                &&& final(voice)@.buffer == old(voice)@.buffer
            }
            &&& its_own && !heard ==> {
                &&& res == DoneAction::DropVoice
                &&& final(voice)@.active is None
                &&& final(voice)@.buffer.len() == 0
            }
            &&& !its_own ==> {
                &&& res == DoneAction::Ignore
                &&& final(voice)@ == old(voice)@
            }
        }),
{
}

/// The voice is asked for nothing else: neither a request nor a demand to stop
/// holds anything under another name.
pub proof fn law_voice_is_asked_for_nothing_else(
    state: AppState,
    voice_id: Seq<char>,
    context: Seq<char>,
    transcript: Seq<char>,
    key: Seq<char>,
)
    ensures
        key != "model_id"@ && key != "transcript"@ && key != "voice"@ && key != "language"@ && key
            != "context_id"@ && key != "output_format"@ && key != "add_timestamps"@ && key
            != "continue"@ ==> speak_tree(state, voice_id, context, transcript).member(key) is None,
        key != "context_id"@ && key != "cancel"@ ==> stop_tree(context).member(key) is None,
{
    let voice = seq![("mode"@, JsonTree::Text("id"@)), ("id"@, JsonTree::Text(voice_id))];
    let format = seq![
        ("container"@, JsonTree::Text("raw"@)),
        ("encoding"@, JsonTree::Text("pcm_s16le"@)),
        ("sample_rate"@, JsonTree::Unsigned(8000)),
    ];
    let entries = seq![
        ("model_id"@, JsonTree::Text(state.cartesia_model@)),
        ("transcript"@, JsonTree::Text(transcript)),
        ("voice"@, json::object(voice)),
        ("language"@, JsonTree::Text(state.cartesia_language@)),
        ("context_id"@, JsonTree::Text(context)),
        ("output_format"@, json::object(format)),
        ("add_timestamps"@, JsonTree::Bool(false)),
        ("continue"@, JsonTree::Bool(false)),
    ];
    if key != "model_id"@ && key != "transcript"@ && key != "voice"@ && key != "language"@ && key
        != "context_id"@ && key != "output_format"@ && key != "add_timestamps"@ && key
        != "continue"@ {
        json::law_object_holds_nothing_else(entries, key);
    }
    let stop = seq![("context_id"@, JsonTree::Text(context)), ("cancel"@, JsonTree::Bool(true))];
    if key != "context_id"@ && key != "cancel"@ {
        json::law_object_holds_nothing_else(stop, key);
    }
}

} // verus!
