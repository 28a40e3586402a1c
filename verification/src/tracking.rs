//! What is kept of a call: its transcript, what the caller gave away, and what
//! the call was about.

use crate::entities;
use crate::entities::{Entities, Findings};
use crate::json;
use crate::json::JsonTree;
use crate::text;
use serde_json::Value;
use vstd::prelude::*;

verus! {

/// A call that begins.
pub struct CallStart {
    pub call_sid: String,
    pub stream_sid: String,
    pub persona: String,
    pub scam_type: String,
}

/// A call that begins, and when.
pub ghost struct Beginning {
    pub call_sid: Seq<char>,
    pub stream_sid: Seq<char>,
    pub persona: Seq<char>,
    pub scam_type: Seq<char>,
    pub time: Seq<char>,
}

impl CallStart {
    /// This beginning at a time.
    pub open spec fn at(self, time: Seq<char>) -> Beginning {
        Beginning {
            call_sid: self.call_sid@,
            stream_sid: self.stream_sid@,
            persona: self.persona@,
            scam_type: self.scam_type@,
            time,
        }
    }
}

/// Something that was said.
pub struct TranscriptEntry {
    pub role: String,
    pub text: String,
    /// When it was said, since the call began.
    pub at_ms: u64,
    pub created_at: String,
}

/// Something that was said.
pub ghost struct Line {
    pub role: Seq<char>,
    pub text: Seq<char>,
    pub at_ms: u64,
    pub created_at: Seq<char>,
}

impl View for TranscriptEntry {
    type V = Line;

    open spec fn view(&self) -> Line {
        Line {
            role: self.role@,
            text: self.text@,
            at_ms: self.at_ms,
            created_at: self.created_at@,
        }
    }
}

pub open spec fn lines_said(entries: Seq<TranscriptEntry>) -> Seq<Line> {
    entries.map_values(|entry: TranscriptEntry| entry@)
}

/// The record of a call.
pub struct CallRecord {
    pub call_sid: String,
    pub stream_sid: String,
    pub persona: String,
    pub scam_type: String,
    pub start_time: String,
    pub end_time: String,
    pub duration_seconds: u64,
    pub transcript_text: String,
    pub transcript_json: Value,
    pub live_entities_json: Value,
    pub metrics_json: Value,
    pub created_at: String,
}

/// What a call was about.
pub struct CallIntelligence {
    pub call_sid: String,
    pub scam_type: String,
    pub impersonated_organisation: Option<String>,
    pub summary: String,
    /// How sure that is, in hundredths.
    pub confidence_percent: u32,
    pub extraction_json: Value,
    pub created_at: String,
}

/// The counts of a call at its end.
pub struct FinalCallMetrics {
    pub generated_audio_ms: u64,
    pub played_audio_ms: u64,
    pub queued_audio_ms: u64,
    pub pending_marks: usize,
    pub humanization_json: Value,
}

// ---------------------------------------------------------------------------
// Times
// ---------------------------------------------------------------------------

/// A time as it is recorded: its seconds, a dot, and its milliseconds.
pub fn now_timestamp(secs: u64, millis: u32) -> (res: String)
    ensures
        res@ == text::decimal(secs as nat).push('.') + text::decimal(millis as nat),
{
    let mut res = text::decimal_text(secs);
    res.push('.');
    res.append(text::decimal_text(millis as u64).as_str());
    res
}

/// The length of a call in seconds: one at least.
pub fn elapsed_seconds(secs: u64) -> (res: u64)
    ensures
        res == if secs >= 1 {
            secs
        } else {
            1
        },
{
    if secs >= 1 {
        secs
    } else {
        1
    }
}

// ---------------------------------------------------------------------------
// The transcript
// ---------------------------------------------------------------------------

/// A line of the transcript: who said it, and what.
pub open spec fn spoken_line(line: Line) -> Seq<char> {
    line.role + ": "@ + line.text
}

/// The lines of a transcript.
pub open spec fn spoken_lines(lines: Seq<Line>) -> Seq<Seq<char>> {
    lines.map_values(|line: Line| spoken_line(line))
}

/// A transcript as text.
pub open spec fn transcript_of(lines: Seq<Line>) -> Seq<char> {
    text::join(spoken_lines(lines), "\n"@)
}

/// An entry of a transcript as JSON.
pub open spec fn line_tree(line: Line) -> JsonTree {
    json::object(
        seq![
            ("role"@, JsonTree::Text(line.role)),
            ("text"@, JsonTree::Text(line.text)),
            ("at_ms"@, JsonTree::Unsigned(line.at_ms)),
            ("created_at"@, JsonTree::Text(line.created_at)),
        ],
    )
}

/// A transcript as JSON.
pub open spec fn transcript_tree(lines: Seq<Line>) -> JsonTree {
    JsonTree::Array(lines.map_values(|line: Line| line_tree(line)))
}

fn transcript_value(entries: &[TranscriptEntry]) -> (res: Value)
    ensures
        json::json_tree(res) == transcript_tree(lines_said(entries@)),
{
    let ghost wanted = lines_said(entries@).map_values(|line: Line| line_tree(line));
    let n: usize = entries.len();
    let mut list: Vec<Value> = Vec::new();
    for i in 0..n
        invariant
            n == entries@.len(),
            wanted == lines_said(entries@).map_values(|line: Line| line_tree(line)),
            json::value_trees(list@) == wanted.take(i as int),
    {
        let mut fields: Vec<(String, Value)> = Vec::new();
        fields.push(json::text_entry("role", entries[i].role.as_str()));
        fields.push(json::text_entry("text", entries[i].text.as_str()));
        fields.push(json::unsigned_entry("at_ms", entries[i].at_ms));
        fields.push(json::text_entry("created_at", entries[i].created_at.as_str()));
        assert(json::entry_trees(fields@) =~= seq![
            ("role"@, JsonTree::Text(entries@[i as int].role@)),
            ("text"@, JsonTree::Text(entries@[i as int].text@)),
            ("at_ms"@, JsonTree::Unsigned(entries@[i as int].at_ms)),
            ("created_at"@, JsonTree::Text(entries@[i as int].created_at@)),
        ]);
        let ghost old_list = list@;
        let value = json::object_value(fields);
        list.push(value);
        assert(json::value_trees(list@) =~= json::value_trees(old_list).push(
            json::json_tree(value),
        ));
        assert(wanted.take(i + 1) =~= wanted.take(i as int).push(wanted[i as int]));
    }
    assert(wanted.take(n as int) =~= wanted);
    json::array_value(list)
}

// ---------------------------------------------------------------------------
// What the call was about
// ---------------------------------------------------------------------------

/// What a call was about, as far as its transcript shows.
pub struct IntelligenceDraft {
    pub impersonated_organisation: Option<String>,
    pub summary: String,
    pub confidence_percent: u32,
}

/// The organisation that the caller speaks for: the first that is named.
pub open spec fn organisation_in(transcript: Seq<char>) -> Option<Seq<char>> {
    let named = entities::entities_in(transcript).organisations;
    if named.len() > 0 {
        Some(named[0])
    } else {
        None
    }
}

/// The first four lines of a transcript in one, or that there is none.
pub open spec fn summary_of(
    call_sid: Seq<char>,
    scam_type: Seq<char>,
    transcript: Seq<char>,
) -> Seq<char> {
    if text::trimmed(transcript).len() == 0 {
        "Call "@ + call_sid + " ended before a transcript was captured."@
    } else {
        let lines = text::lines(transcript);
        let first = if lines.len() > 4 {
            lines.take(4)
        } else {
            lines
        };
        "Observed "@ + scam_type + " call. "@ + text::join(first, " "@)
    }
}

/// How sure it is what a call was about: most where an organisation is named
/// or much was said.
pub open spec fn confidence_in(transcript: Seq<char>) -> u32 {
    if organisation_in(transcript) is Some || text::utf8_len(transcript) > 120 {
        72
    } else if text::trimmed(transcript).len() == 0 {
        10
    } else {
        45
    }
}

fn summarize(call_sid: &str, scam_type: &str, transcript: &str) -> (res: String)
    ensures
        res@ == summary_of(call_sid@, scam_type@, transcript@),
{
    if text::trim(transcript).as_str().is_empty() {
        let mut res = "Call ".to_owned();
        res.append(call_sid);
        res.append(" ended before a transcript was captured.");
        return res;
    }
    let mut lines = text::split_lines(transcript);
    assert(text::texts(lines@).len() == lines@.len());
    if lines.len() > 4 {
        lines.truncate(4);
        assert(text::texts(lines@) =~= text::lines(transcript@).take(4));
    }
    let mut res = "Observed ".to_owned();
    res.append(scam_type);
    res.append(" call. ");
    res.append(text::join_texts(lines.as_slice(), " ").as_str());
    res
}

/// What a call was about, as far as its transcript shows.
pub fn build_intelligence(call_sid: &str, scam_type: &str, transcript: &str) -> (res:
    IntelligenceDraft)
    ensures
        text::text_view(res.impersonated_organisation) == organisation_in(transcript@),
        res.summary@ == summary_of(call_sid@, scam_type@, transcript@),
        res.confidence_percent == confidence_in(transcript@),
{
    let found = entities::extract_entities(transcript);
    let ghost named = entities::entities_in(transcript@).organisations;
    assert(found@.organisations == named);
    assert(text::texts(found.organisations@).len() == found.organisations@.len());
    let impersonated_organisation = if found.organisations.len() > 0 {
        assert(text::texts(found.organisations@)[0] == found.organisations@[0]@);
        Some(found.organisations[0].clone())
    } else {
        None
    };
    let summary = summarize(call_sid, scam_type, transcript);
    let confidence_percent: u32 = if impersonated_organisation.is_some() || text::byte_len(
        transcript,
    ) > 120 {
        72
    } else if text::trim(transcript).as_str().is_empty() {
        10
    } else {
        45
    };
    IntelligenceDraft { impersonated_organisation, summary, confidence_percent }
}

// ---------------------------------------------------------------------------
// The call
// ---------------------------------------------------------------------------

/// A call that is under way.
pub struct CallTrackingState {
    pub start: CallStart,
    pub start_time: String,
    pub transcript: Vec<TranscriptEntry>,
    /// What the caller gave away so far, once something was said.
    pub live_entities: Option<Entities>,
}

/// A call that is under way: what it is called, when it began, what was said in
/// it, and what the caller gave away.
pub ghost struct Tracking {
    pub start: Beginning,
    pub lines: Seq<Line>,
    pub live: Option<Findings>,
}

impl View for CallTrackingState {
    type V = Tracking;

    open spec fn view(&self) -> Tracking {
        Tracking {
            start: self.start.at(self.start_time@),
            lines: lines_said(self.transcript@),
            live: match self.live_entities {
                Some(found) => Some(found@),
                None => None,
            },
        }
    }
}

impl Tracking {
    /// Something was said. Blank text is not kept.
    pub open spec fn with_line(self, line: Line) -> Tracking {
        if text::trimmed(line.text).len() == 0 {
            self
        } else {
            Tracking {
                lines: self.lines.push(line),
                live: Some(entities::entities_in(transcript_of(self.lines.push(line)))),
                ..self
            }
        }
    }

    /// A call in which nothing was said.
    pub open spec fn silent(start: Beginning) -> Tracking {
        Tracking { start, lines: Seq::empty(), live: None }
    }

    /// What the caller gave away is known as of the last line.
    pub open spec fn up_to_date(self) -> bool {
        match self.live {
            Some(found) => found == entities::entities_in(transcript_of(self.lines)),
            None => self.lines.len() == 0,
        }
    }
}

/// The counts of a call as JSON.
pub open spec fn metrics_tree(metrics: FinalCallMetrics) -> JsonTree {
    json::object(
        seq![
            ("generated_audio_ms"@, JsonTree::Unsigned(metrics.generated_audio_ms)),
            ("played_audio_ms"@, JsonTree::Unsigned(metrics.played_audio_ms)),
            ("queued_audio_ms"@, JsonTree::Unsigned(metrics.queued_audio_ms)),
            ("pending_marks"@, JsonTree::Unsigned(metrics.pending_marks as u64)),
            ("humanization"@, json::json_tree(metrics.humanization_json)),
        ],
    )
}

fn metrics_value(metrics: FinalCallMetrics) -> (res: Value)
    ensures
        json::json_tree(res) == metrics_tree(metrics),
{
    let ghost shaped = json::json_tree(metrics.humanization_json);
    let mut entries: Vec<(String, Value)> = Vec::new();
    entries.push(json::unsigned_entry("generated_audio_ms", metrics.generated_audio_ms));
    entries.push(json::unsigned_entry("played_audio_ms", metrics.played_audio_ms));
    entries.push(json::unsigned_entry("queued_audio_ms", metrics.queued_audio_ms));
    entries.push(json::unsigned_entry("pending_marks", metrics.pending_marks as u64));
    entries.push(json::entry("humanization", metrics.humanization_json));
    assert(json::entry_trees(entries@) =~= seq![
        ("generated_audio_ms"@, JsonTree::Unsigned(metrics.generated_audio_ms)),
        ("played_audio_ms"@, JsonTree::Unsigned(metrics.played_audio_ms)),
        ("queued_audio_ms"@, JsonTree::Unsigned(metrics.queued_audio_ms)),
        ("pending_marks"@, JsonTree::Unsigned(metrics.pending_marks as u64)),
        ("humanization"@, shaped),
    ]);
    json::object_value(entries)
}

impl CallTrackingState {
    /// A call in which nothing was said.
    pub fn new(start: CallStart, start_time: String) -> (res: Self)
        ensures
            res@ == Tracking::silent(start.at(start_time@)),
    {
        let res = CallTrackingState {
            start,
            start_time,
            transcript: Vec::new(),
            live_entities: None,
        };
        assert(lines_said(res.transcript@) =~= Seq::<Line>::empty());
        res
    }

    /// The transcript as text.
    pub fn transcript_text(&self) -> (res: String)
        ensures
            res@ == transcript_of(self@.lines),
    {
        let ghost wanted = spoken_lines(self@.lines);
        let n: usize = self.transcript.len();
        let mut lines: Vec<String> = Vec::new();
        assert(text::texts(lines@) =~= wanted.take(0));
        for i in 0..n
            invariant
                n == self.transcript@.len(),
                wanted == spoken_lines(self@.lines),
                text::texts(lines@) == wanted.take(i as int),
        {
            let mut line = self.transcript[i].role.clone();
            line.append(": ");
            line.append(self.transcript[i].text.as_str());
            let ghost old_lines = lines@;
            let ghost held = line@;
            lines.push(line);
            assert(text::texts(lines@) =~= text::texts(old_lines).push(held));
            assert(wanted.take(i + 1) =~= wanted.take(i as int).push(wanted[i as int]));
        }
        assert(wanted.take(n as int) =~= wanted);
        text::join_texts(lines.as_slice(), "\n")
    }

    /// Something was said.
    pub fn record_transcript(&mut self, role: &str, text: String, at_ms: u64, created_at: String)
        ensures
            final(self)@ == old(self)@.with_line(
                (Line { role: role@, text: text@, at_ms, created_at: created_at@ }),
            ),
    {
        if text::trim(text.as_str()).as_str().is_empty() {
            return;
        }
        let ghost line = Line { role: role@, text: text@, at_ms, created_at: created_at@ };
        let ghost before = self.transcript@;
        self.transcript.push(TranscriptEntry { role: role.to_owned(), text, at_ms, created_at });
        assert(lines_said(self.transcript@) =~= lines_said(before).push(line));
        let transcript = self.transcript_text();
        self.live_entities = Some(entities::extract_entities(transcript.as_str()));
    }

    /// The caller said something.
    pub fn record_user_text(&mut self, text: String, at_ms: u64, created_at: String)
        ensures
            final(self)@ == old(self)@.with_line(
                (Line { role: "user"@, text: text@, at_ms, created_at: created_at@ }),
            ),
    {
        self.record_transcript("user", text, at_ms, created_at);
    }

    /// The agent said something.
    pub fn record_assistant_text(&mut self, text: String, at_ms: u64, created_at: String)
        ensures
            final(self)@ == old(self)@.with_line(
                (Line { role: "assistant"@, text: text@, at_ms, created_at: created_at@ }),
            ),
    {
        self.record_transcript("assistant", text, at_ms, created_at);
    }

    /// The record of a call that has ended at `end_time` after so many seconds,
    /// and what it was about.
    pub fn finish(
        &self,
        end_time: String,
        elapsed_secs: u64,
        metrics: FinalCallMetrics,
        created_at: String,
    ) -> (res: (CallRecord, CallIntelligence))
        ensures
            ({
                let (call, about) = res;
                let transcript = transcript_of(self@.lines);
                let found = entities::entities_tree(entities::entities_in(transcript));
                &&& call.call_sid@ == self@.start.call_sid
                &&& call.stream_sid@ == self@.start.stream_sid
                &&& call.persona@ == self@.start.persona
                &&& call.scam_type@ == self@.start.scam_type
                &&& call.start_time@ == self@.start.time
                &&& call.end_time == end_time
                &&& call.duration_seconds == if elapsed_secs >= 1 {
                    elapsed_secs
                } else {
                    1
                }
                &&& call.transcript_text@ == transcript
                &&& json::json_tree(call.transcript_json) == transcript_tree(self@.lines)
                &&& json::json_tree(call.live_entities_json) == found
                &&& json::json_tree(call.metrics_json) == metrics_tree(metrics)
                &&& call.created_at@ == self@.start.time
                &&& about.call_sid@ == self@.start.call_sid
                &&& about.scam_type@ == self@.start.scam_type
                &&& text::text_view(about.impersonated_organisation) == organisation_in(transcript)
                &&& about.summary@ == summary_of(
                    self@.start.call_sid,
                    self@.start.scam_type,
                    transcript,
                )
                &&& about.confidence_percent == confidence_in(transcript)
                &&& json::json_tree(about.extraction_json) == found
                &&& about.created_at == created_at
            }),
    {
        let transcript_text = self.transcript_text();
        let found = entities::extract_entities(transcript_text.as_str());
        let draft = build_intelligence(
            self.start.call_sid.as_str(),
            self.start.scam_type.as_str(),
            transcript_text.as_str(),
        );
        let call = CallRecord {
            call_sid: self.start.call_sid.clone(),
            stream_sid: self.start.stream_sid.clone(),
            persona: self.start.persona.clone(),
            scam_type: self.start.scam_type.clone(),
            start_time: self.start_time.clone(),
            end_time,
            duration_seconds: elapsed_seconds(elapsed_secs),
            transcript_text,
            transcript_json: transcript_value(self.transcript.as_slice()),
            live_entities_json: found.to_json(),
            metrics_json: metrics_value(metrics),
            created_at: self.start_time.clone(),
        };
        let about = CallIntelligence {
            call_sid: self.start.call_sid.clone(),
            scam_type: self.start.scam_type.clone(),
            impersonated_organisation: draft.impersonated_organisation,
            summary: draft.summary,
            confidence_percent: draft.confidence_percent,
            extraction_json: found.to_json(),
            created_at,
        };
        (call, about)
    }
}

/// The record of a call as JSON.
pub open spec fn call_tree(record: CallRecord) -> JsonTree {
    json::object(
        seq![
            ("call_sid"@, JsonTree::Text(record.call_sid@)),
            ("stream_sid"@, JsonTree::Text(record.stream_sid@)),
            ("persona"@, JsonTree::Text(record.persona@)),
            ("scam_type"@, JsonTree::Text(record.scam_type@)),
            ("start_time"@, JsonTree::Text(record.start_time@)),
            ("end_time"@, JsonTree::Text(record.end_time@)),
            ("duration_seconds"@, JsonTree::Unsigned(record.duration_seconds)),
            ("transcript_text"@, JsonTree::Text(record.transcript_text@)),
            ("transcript_json"@, json::json_tree(record.transcript_json)),
            ("live_entities_json"@, json::json_tree(record.live_entities_json)),
            ("metrics_json"@, json::json_tree(record.metrics_json)),
            ("created_at"@, JsonTree::Text(record.created_at@)),
        ],
    )
}

/// The record of a call as JSON.
pub fn call_value(record: CallRecord) -> (res: Value)
    ensures
        json::json_tree(res) == call_tree(record),
{
    let ghost said = json::json_tree(record.transcript_json);
    let ghost found = json::json_tree(record.live_entities_json);
    let ghost counts = json::json_tree(record.metrics_json);
    let mut entries: Vec<(String, Value)> = Vec::new();
    entries.push(json::text_entry("call_sid", record.call_sid.as_str()));
    entries.push(json::text_entry("stream_sid", record.stream_sid.as_str()));
    entries.push(json::text_entry("persona", record.persona.as_str()));
    entries.push(json::text_entry("scam_type", record.scam_type.as_str()));
    entries.push(json::text_entry("start_time", record.start_time.as_str()));
    entries.push(json::text_entry("end_time", record.end_time.as_str()));
    entries.push(json::unsigned_entry("duration_seconds", record.duration_seconds));
    entries.push(json::text_entry("transcript_text", record.transcript_text.as_str()));
    entries.push(json::entry("transcript_json", record.transcript_json));
    entries.push(json::entry("live_entities_json", record.live_entities_json));
    entries.push(json::entry("metrics_json", record.metrics_json));
    entries.push(json::text_entry("created_at", record.created_at.as_str()));
    assert(json::entry_trees(entries@) =~= seq![
        ("call_sid"@, JsonTree::Text(record.call_sid@)),
        ("stream_sid"@, JsonTree::Text(record.stream_sid@)),
        ("persona"@, JsonTree::Text(record.persona@)),
        ("scam_type"@, JsonTree::Text(record.scam_type@)),
        ("start_time"@, JsonTree::Text(record.start_time@)),
        ("end_time"@, JsonTree::Text(record.end_time@)),
        ("duration_seconds"@, JsonTree::Unsigned(record.duration_seconds)),
        ("transcript_text"@, JsonTree::Text(record.transcript_text@)),
        ("transcript_json"@, said),
        ("live_entities_json"@, found),
        ("metrics_json"@, counts),
        ("created_at"@, JsonTree::Text(record.created_at@)),
    ]);
    json::object_value(entries)
}

/// A text as JSON, or nothing.
pub open spec fn text_or_null(text: Option<Seq<char>>) -> JsonTree {
    match text {
        Some(text) => JsonTree::Text(text),
        None => JsonTree::Null,
    }
}

/// What a call was about as JSON, with how sure that is.
pub open spec fn intelligence_tree(record: CallIntelligence, confidence: JsonTree) -> JsonTree {
    json::object(
        seq![
            ("call_sid"@, JsonTree::Text(record.call_sid@)),
            ("scam_type"@, JsonTree::Text(record.scam_type@)),
            (
                "impersonated_organisation"@,
                text_or_null(text::text_view(record.impersonated_organisation)),
            ),
            ("summary"@, JsonTree::Text(record.summary@)),
            ("confidence"@, confidence),
            ("extraction_json"@, json::json_tree(record.extraction_json)),
            ("created_at"@, JsonTree::Text(record.created_at@)),
        ],
    )
}

/// What a call was about as JSON. How sure that is, is a fraction, which the
/// caller writes.
pub fn intelligence_value(record: CallIntelligence, confidence: Value) -> (res: Value)
    ensures
        json::json_tree(res) == intelligence_tree(record, json::json_tree(confidence)),
{
    let ghost sure = json::json_tree(confidence);
    let ghost found = json::json_tree(record.extraction_json);
    let organisation = match &record.impersonated_organisation {
        Some(name) => json::text_value(name.as_str()),
        None => json::null_value(),
    };
    let mut entries: Vec<(String, Value)> = Vec::new();
    entries.push(json::text_entry("call_sid", record.call_sid.as_str()));
    entries.push(json::text_entry("scam_type", record.scam_type.as_str()));
    entries.push(json::entry("impersonated_organisation", organisation));
    entries.push(json::text_entry("summary", record.summary.as_str()));
    entries.push(json::entry("confidence", confidence));
    entries.push(json::entry("extraction_json", record.extraction_json));
    entries.push(json::text_entry("created_at", record.created_at.as_str()));
    assert(json::entry_trees(entries@) =~= seq![
        ("call_sid"@, JsonTree::Text(record.call_sid@)),
        ("scam_type"@, JsonTree::Text(record.scam_type@)),
        (
            "impersonated_organisation"@,
            text_or_null(text::text_view(record.impersonated_organisation)),
        ),
        ("summary"@, JsonTree::Text(record.summary@)),
        ("confidence"@, sure),
        ("extraction_json"@, found),
        ("created_at"@, JsonTree::Text(record.created_at@)),
    ]);
    json::object_value(entries)
}

/// A record of some kind in the file of calls.
pub open spec fn record_tree(kind: Seq<char>, record: JsonTree) -> JsonTree {
    json::object(seq![("type"@, JsonTree::Text(kind)), ("record"@, record)])
}

fn record_line(kind: &str, record: Value) -> (res: String)
    ensures
        res@ == json::json_text(record_tree(kind@, json::json_tree(record))),
{
    let ghost kept = json::json_tree(record);
    let mut entries: Vec<(String, Value)> = Vec::new();
    entries.push(json::text_entry("type", kind));
    entries.push(json::entry("record", record));
    assert(json::entry_trees(entries@) =~= seq![
        ("type"@, JsonTree::Text(kind@)),
        ("record"@, kept),
    ]);
    let line = json::object_value(entries);
    json::json_string(&line)
}

/// The file of calls: one record in a line.
pub struct JsonlCallTrackingRepository {
    pub path: String,
}

impl JsonlCallTrackingRepository {
    /// The file at a path.
    pub fn new(path: String) -> (res: Self)
        ensures
            res.path == path,
    {
        JsonlCallTrackingRepository { path }
    }

    /// The line of a call.
    pub fn save_call(&self, record: CallRecord) -> (res: String)
        ensures
            res@ == json::json_text(record_tree("call"@, call_tree(record))),
    {
        record_line("call", call_value(record))
    }

    /// The line of what a call was about, with how sure that is as a fraction.
    pub fn save_intelligence(&self, record: CallIntelligence, confidence: Value) -> (res: String)
        ensures
            res@ == json::json_text(
                record_tree(
                    "call_intelligence"@,
                    intelligence_tree(record, json::json_tree(confidence)),
                ),
            ),
    {
        record_line("call_intelligence", intelligence_value(record, confidence))
    }
}

// ---------------------------------------------------------------------------
// Laws
// ---------------------------------------------------------------------------

/// What the caller gave away is always known as of the last line: so it is at
/// the start of a call, and so it stays whatever is said.
pub proof fn law_live_entities_stay_up_to_date(start: Beginning, tracking: Tracking, line: Line)
    ensures
        Tracking::silent(start).up_to_date(),
        tracking.up_to_date() ==> tracking.with_line(line).up_to_date(),
{
}

/// Blank text leaves no trace, no line is ever taken back, and the beginning of
/// a call stays what it was.
pub proof fn law_transcript_only_grows(tracking: Tracking, line: Line)
    ensures
        tracking.with_line(line).start == tracking.start,
        tracking.lines.is_prefix_of(tracking.with_line(line).lines),
        text::trimmed(line.text).len() == 0 ==> tracking.with_line(line) == tracking,
        text::trimmed(line.text).len() > 0 ==> tracking.with_line(line).lines.last() == line,
{
    let after = tracking.with_line(line).lines;
    assert(tracking.lines =~= after.subrange(0, tracking.lines.len() as int));
}

/// A call in which an organisation is named is never held for less sure than
/// one in which none is.
pub proof fn law_named_organisation_is_sure(named: Seq<char>, other: Seq<char>)
    requires
        organisation_in(named) is Some,
    ensures
        confidence_in(named) >= confidence_in(other),
        confidence_in(other) == 10 || confidence_in(other) == 45 || confidence_in(other) == 72,
{
}

/// A call lasts a second at least, and otherwise as many as have gone by.
pub proof fn law_call_length(secs: u64, res: u64)
    requires
        call_ensures(elapsed_seconds, (secs,), res),
    ensures
        res >= 1,
        secs >= 1 ==> res == secs,
        secs == 0 ==> res == 1,
{
}

/// What is said goes to the end of the transcript, with who said it, in a line of
/// its own.
pub proof fn law_transcript_goes_line_by_line(lines: Seq<Line>, line: Line)
    ensures
        transcript_of(Seq::empty()) == Seq::<char>::empty(),
        transcript_of(seq![line]) == line.role + ": "@ + line.text,
        lines.len() > 0 ==> transcript_of(lines.push(line)) == transcript_of(lines) + "\n"@
            + line.role + ": "@ + line.text,
{
    let all = spoken_lines(lines.push(line));
    assert(spoken_lines(Seq::empty()) =~= Seq::<Seq<char>>::empty());
    assert(spoken_lines(seq![line]) =~= seq![spoken_line(line)]);
    if lines.len() > 0 {
        assert(all.drop_last() =~= spoken_lines(lines));
        assert(all.last() == spoken_line(line));
        assert(transcript_of(lines.push(line)) =~= transcript_of(lines) + "\n"@ + line.role + ": "@
            + line.text);
    }
}

/// Anything that is said is kept as it was said, unless it is white space all
/// through, and what the caller has given away is then looked up anew in all that
/// was said.
pub proof fn law_everything_said_is_kept(tracking: Tracking, line: Line, i: int)
    requires
        0 <= i < line.text.len(),
        !text::is_white(line.text[i]),
    ensures
        ({
            let after = tracking.with_line(line);
            &&& after.lines == tracking.lines.push(line)
            &&& after.start == tracking.start
            &&& after.live == Some(entities::entities_in(transcript_of(after.lines)))
        }),
{
    text::law_blank(line.text);
}

/// Text that is white space all through is not kept.
pub proof fn law_blank_text_is_not_kept(tracking: Tracking, line: Line)
    requires
        forall|i: int| 0 <= i < line.text.len() ==> text::is_white(#[trigger] line.text[i]),
    ensures
        tracking.with_line(line) == tracking,
{
    text::law_blank(line.text);
}

proof fn lemma_first_named(low: Seq<char>, list: Seq<(Seq<char>, Seq<char>)>, i: int)
    requires
        0 <= i < list.len(),
        text::contains(low, list[i].0),
        forall|j: int| 0 <= j < i ==> !text::contains(low, #[trigger] list[j].0),
    ensures
        entities::named_in(low, list).len() > 0,
        entities::named_in(low, list)[0] == list[i].1,
    decreases list.len(),
{
    let shorter = list.drop_last();
    if i < shorter.len() {
        assert(shorter[i] == list[i]);
        assert forall|j: int| 0 <= j < i implies !text::contains(low, #[trigger] shorter[j].0) by {
            assert(!text::contains(low, list[j].0));
        }
        lemma_first_named(low, shorter, i);
    } else {
        assert forall|j: int| 0 <= j < shorter.len() implies !text::contains(
            low,
            #[trigger] shorter[j].0,
        ) by {
            assert(!text::contains(low, list[j].0));
        }
        lemma_none_named(low, shorter);
    }
}

proof fn lemma_none_named(low: Seq<char>, list: Seq<(Seq<char>, Seq<char>)>)
    requires
        forall|j: int| 0 <= j < list.len() ==> !text::contains(low, #[trigger] list[j].0),
    ensures
        entities::named_in(low, list).len() == 0,
    decreases list.len(),
{
    if list.len() > 0 {
        let shorter = list.drop_last();
        assert(!text::contains(low, list[list.len() - 1].0));
        assert forall|j: int| 0 <= j < shorter.len() implies !text::contains(
            low,
            #[trigger] shorter[j].0,
        ) by {
            assert(!text::contains(low, list[j].0));
        }
        lemma_none_named(low, shorter);
    }
}

proof fn lemma_first_stays(values: Seq<Seq<char>>)
    requires
        values.len() > 0,
    ensures
        entities::distinct(values).len() > 0,
        entities::distinct(values)[0] == values[0],
    decreases values.len(),
{
    reveal_with_fuel(entities::distinct, 2);
    if values.len() > 1 {
        lemma_first_stays(values.drop_last());
    } else {
        assert(values.drop_last() =~= Seq::<Seq<char>>::empty());
    }
}

/// The caller is taken to speak for the first known organisation, by the
/// alphabet, that the transcript speaks of, in either case, and for none where it
/// speaks of none.
pub proof fn law_caller_speaks_for_the_first(transcript: Seq<char>)
    ensures
        ({
            let low = text::lower(transcript);
            organisation_in(transcript) == if text::contains(low, "amazon"@) {
                Some("Amazon"@)
            } else if text::contains(low, "apple"@) {
                Some("Apple"@)
            } else if text::contains(low, "bank of america"@) {
                Some("Bank of America"@)
            } else if text::contains(low, "coinbase"@) {
                Some("Coinbase"@)
            } else if text::contains(low, "irs"@) {
                Some("IRS"@)
            } else if text::contains(low, "microsoft"@) {
                Some("Microsoft"@)
            } else if text::contains(low, "paypal"@) {
                Some("PayPal"@)
            } else if text::contains(low, "social security"@) {
                Some("Social Security Administration"@)
            } else if text::contains(low, "wells fargo"@) {
                Some("Wells Fargo"@)
            } else if text::contains(low, "zelle"@) {
                Some("Zelle"@)
            } else {
                None
            }
        }),
{
    let low = text::lower(transcript);
    let list = entities::organisations();
    assert(list[0].0 == "amazon"@ && list[1].0 == "apple"@ && list[2].0 == "bank of america"@
        && list[3].0 == "coinbase"@ && list[4].0 == "irs"@);
    assert(list[5].0 == "microsoft"@ && list[6].0 == "paypal"@ && list[7].0 == "social security"@
        && list[8].0 == "wells fargo"@ && list[9].0 == "zelle"@);
    let named = entities::organisations_in(transcript);
    let i: int = if text::contains(low, list[0].0) {
        0
    } else if text::contains(low, list[1].0) {
        1
    } else if text::contains(low, list[2].0) {
        2
    } else if text::contains(low, list[3].0) {
        3
    } else if text::contains(low, list[4].0) {
        4
    } else if text::contains(low, list[5].0) {
        5
    } else if text::contains(low, list[6].0) {
        6
    } else if text::contains(low, list[7].0) {
        7
    } else if text::contains(low, list[8].0) {
        8
    } else if text::contains(low, list[9].0) {
        9
    } else {
        10
    };
    if i < 10 {
        lemma_first_named(low, list, i);
        lemma_first_stays(named);
    } else {
        lemma_none_named(low, list);
        assert(named =~= Seq::<Seq<char>>::empty());
    }
}

/// A call is summed up by its first four lines, or by all where it has no more,
/// with spaces between them: what is said later does not matter. A call in which
/// nothing was said is named, and nothing else is told of it.
pub proof fn law_four_lines_sum_up(
    call_sid: Seq<char>,
    scam_type: Seq<char>,
    transcript: Seq<char>,
    other: Seq<char>,
    i: int,
)
    ensures
        (forall|j: int| 0 <= j < transcript.len() ==> text::is_white(#[trigger] transcript[j]))
            ==> summary_of(call_sid, scam_type, transcript) == "Call "@ + call_sid
            + " ended before a transcript was captured."@,
        0 <= i < transcript.len() && !text::is_white(transcript[i]) ==> {
            let lines = text::lines(transcript);
            &&& lines.len() <= 4 ==> summary_of(call_sid, scam_type, transcript) == "Observed "@
                + scam_type + " call. "@ + text::join(lines, " "@)
            &&& lines.len() > 4 ==> summary_of(call_sid, scam_type, transcript) == "Observed "@
                + scam_type + " call. "@ + text::join(
                seq![lines[0], lines[1], lines[2], lines[3]],
                " "@,
            )
        },
        0 <= i < transcript.len() && !text::is_white(transcript[i]) && text::lines(
            transcript,
        ).len() >= 4 && text::lines(other).len() >= 4 && text::trimmed(other).len() > 0
            && text::lines(transcript).take(4) == text::lines(other).take(4) ==> summary_of(
            call_sid,
            scam_type,
            transcript,
        ) == summary_of(call_sid, scam_type, other),
{
    text::law_blank(transcript);
    let lines = text::lines(transcript);
    if lines.len() > 4 {
        assert(lines.take(4) =~= seq![lines[0], lines[1], lines[2], lines[3]]);
    }
    if lines.len() == 4 {
        assert(lines.take(4) =~= lines);
    }
    if text::lines(other).len() == 4 {
        assert(text::lines(other).take(4) =~= text::lines(other));
    }
}

/// How sure it is what a call was about goes by three steps: 72 in a hundred
/// where an organisation is named or the transcript takes more than 120 bytes, 10
/// where nothing was said, and 45 otherwise.
pub proof fn law_confidence_goes_by_steps(transcript: Seq<char>)
    ensures
        organisation_in(transcript) is Some ==> confidence_in(transcript) == 72,
        vstd::utf8::encode_utf8(transcript).len() >= 121 ==> confidence_in(transcript) == 72,
        organisation_in(transcript) is None && vstd::utf8::encode_utf8(transcript).len() <= 120
            ==> confidence_in(transcript) == if text::trimmed(transcript).len() == 0 {
            10
        } else {
            45u32
        },
{
}

/// What is recorded of a call can be read back, each value under its name.
pub proof fn law_records_are_written(
    line: Line,
    metrics: FinalCallMetrics,
    about: CallIntelligence,
    confidence: JsonTree,
    kind: Seq<char>,
    record: JsonTree,
)
    ensures
        line_tree(line).text_at("role"@) == Some(line.role),
        line_tree(line).text_at("text"@) == Some(line.text),
        line_tree(line).unsigned_at("at_ms"@) == Some(line.at_ms),
        line_tree(line).text_at("created_at"@) == Some(line.created_at),
        metrics_tree(metrics).unsigned_at("generated_audio_ms"@) == Some(
            metrics.generated_audio_ms,
        ),
        metrics_tree(metrics).unsigned_at("played_audio_ms"@) == Some(metrics.played_audio_ms),
        metrics_tree(metrics).unsigned_at("queued_audio_ms"@) == Some(metrics.queued_audio_ms),
        metrics_tree(metrics).unsigned_at("pending_marks"@) == Some(metrics.pending_marks as u64),
        metrics_tree(metrics).member("humanization"@) == Some(
            json::json_tree(metrics.humanization_json),
        ),
        intelligence_tree(about, confidence).text_at("call_sid"@) == Some(about.call_sid@),
        intelligence_tree(about, confidence).text_at("scam_type"@) == Some(about.scam_type@),
        intelligence_tree(about, confidence).text_at("impersonated_organisation"@)
            == text::text_view(about.impersonated_organisation),
        about.impersonated_organisation is None ==> intelligence_tree(about, confidence).member(
            "impersonated_organisation"@,
        ) == Some(JsonTree::Null),
        intelligence_tree(about, confidence).text_at("summary"@) == Some(about.summary@),
        intelligence_tree(about, confidence).member("confidence"@) == Some(confidence),
        intelligence_tree(about, confidence).member("extraction_json"@) == Some(
            json::json_tree(about.extraction_json),
        ),
        intelligence_tree(about, confidence).text_at("created_at"@) == Some(about.created_at@),
        record_tree(kind, record).text_at("type"@) == Some(kind),
        record_tree(kind, record).member("record"@) == Some(record),
{
    reveal_strlit("role");
    reveal_strlit("text");
    reveal_strlit("at_ms");
    reveal_strlit("created_at");
    assert("role"@.len() == 4 && "role"@[0] == 'r');
    assert("text"@.len() == 4 && "text"@[0] == 't');
    assert("at_ms"@.len() == 5);
    assert("created_at"@.len() == 10 && "created_at"@[0] == 'c' && "created_at"@[1] == 'r');
    let said = seq![
        ("role"@, JsonTree::Text(line.role)),
        ("text"@, JsonTree::Text(line.text)),
        ("at_ms"@, JsonTree::Unsigned(line.at_ms)),
        ("created_at"@, JsonTree::Text(line.created_at)),
    ];
    json::law_object_holds_its_entries(said, 0);
    json::law_object_holds_its_entries(said, 1);
    json::law_object_holds_its_entries(said, 2);
    json::law_object_holds_its_entries(said, 3);
    reveal_strlit("generated_audio_ms");
    reveal_strlit("played_audio_ms");
    reveal_strlit("queued_audio_ms");
    reveal_strlit("pending_marks");
    reveal_strlit("humanization");
    assert("generated_audio_ms"@.len() == 18);
    assert("played_audio_ms"@.len() == 15 && "played_audio_ms"@[0] == 'p');
    assert("queued_audio_ms"@.len() == 15 && "queued_audio_ms"@[0] == 'q');
    assert("pending_marks"@.len() == 13);
    assert("humanization"@.len() == 12);
    let counts = seq![
        ("generated_audio_ms"@, JsonTree::Unsigned(metrics.generated_audio_ms)),
        ("played_audio_ms"@, JsonTree::Unsigned(metrics.played_audio_ms)),
        ("queued_audio_ms"@, JsonTree::Unsigned(metrics.queued_audio_ms)),
        ("pending_marks"@, JsonTree::Unsigned(metrics.pending_marks as u64)),
        ("humanization"@, json::json_tree(metrics.humanization_json)),
    ];
    json::law_object_holds_its_entries(counts, 0);
    json::law_object_holds_its_entries(counts, 1);
    json::law_object_holds_its_entries(counts, 2);
    json::law_object_holds_its_entries(counts, 3);
    json::law_object_holds_its_entries(counts, 4);
    reveal_strlit("call_sid");
    reveal_strlit("scam_type");
    reveal_strlit("impersonated_organisation");
    reveal_strlit("summary");
    reveal_strlit("confidence");
    reveal_strlit("extraction_json");
    assert("call_sid"@.len() == 8);
    assert("scam_type"@.len() == 9);
    assert("impersonated_organisation"@.len() == 25);
    assert("summary"@.len() == 7);
    assert("confidence"@.len() == 10 && "confidence"@[1] == 'o');
    assert("extraction_json"@.len() == 15);
    let told = seq![
        ("call_sid"@, JsonTree::Text(about.call_sid@)),
        ("scam_type"@, JsonTree::Text(about.scam_type@)),
        (
            "impersonated_organisation"@,
            text_or_null(text::text_view(about.impersonated_organisation)),
        ),
        ("summary"@, JsonTree::Text(about.summary@)),
        ("confidence"@, confidence),
        ("extraction_json"@, json::json_tree(about.extraction_json)),
        ("created_at"@, JsonTree::Text(about.created_at@)),
    ];
    json::law_object_holds_its_entries(told, 0);
    json::law_object_holds_its_entries(told, 1);
    json::law_object_holds_its_entries(told, 2);
    json::law_object_holds_its_entries(told, 3);
    json::law_object_holds_its_entries(told, 4);
    json::law_object_holds_its_entries(told, 5);
    json::law_object_holds_its_entries(told, 6);
    reveal_strlit("type");
    reveal_strlit("record");
    assert("type"@.len() == 4);
    assert("record"@.len() == 6);
    let framed = seq![("type"@, JsonTree::Text(kind)), ("record"@, record)];
    json::law_object_holds_its_entries(framed, 0);
    json::law_object_holds_its_entries(framed, 1);
}

/// The record of a call can be read back, each value under its name.
pub proof fn law_call_is_written(record: CallRecord)
    ensures
        ({
            let tree = call_tree(record);
            &&& tree.text_at("call_sid"@) == Some(record.call_sid@)
            &&& tree.text_at("stream_sid"@) == Some(record.stream_sid@)
            &&& tree.text_at("persona"@) == Some(record.persona@)
            &&& tree.text_at("scam_type"@) == Some(record.scam_type@)
            &&& tree.text_at("start_time"@) == Some(record.start_time@)
            &&& tree.text_at("end_time"@) == Some(record.end_time@)
            &&& tree.unsigned_at("duration_seconds"@) == Some(record.duration_seconds)
            &&& tree.text_at("transcript_text"@) == Some(record.transcript_text@)
            &&& tree.member("transcript_json"@) == Some(json::json_tree(record.transcript_json))
            &&& tree.member("live_entities_json"@) == Some(
                json::json_tree(record.live_entities_json),
            )
            &&& tree.member("metrics_json"@) == Some(json::json_tree(record.metrics_json))
            &&& tree.text_at("created_at"@) == Some(record.created_at@)
        }),
{
    reveal_strlit("call_sid");
    reveal_strlit("stream_sid");
    reveal_strlit("persona");
    reveal_strlit("scam_type");
    reveal_strlit("start_time");
    reveal_strlit("end_time");
    reveal_strlit("duration_seconds");
    reveal_strlit("transcript_text");
    reveal_strlit("transcript_json");
    reveal_strlit("live_entities_json");
    reveal_strlit("metrics_json");
    reveal_strlit("created_at");
    assert("call_sid"@.len() == 8 && "call_sid"@[0] == 'c');
    assert("stream_sid"@.len() == 10 && "stream_sid"@[0] == 's' && "stream_sid"@[2] == 'r');
    assert("persona"@.len() == 7);
    assert("scam_type"@.len() == 9);
    assert("start_time"@.len() == 10 && "start_time"@[0] == 's' && "start_time"@[2] == 'a');
    assert("end_time"@.len() == 8 && "end_time"@[0] == 'e');
    assert("duration_seconds"@.len() == 16);
    assert("transcript_text"@.len() == 15 && "transcript_text"@[11] == 't');
    assert("transcript_json"@.len() == 15 && "transcript_json"@[11] == 'j');
    assert("live_entities_json"@.len() == 18);
    assert("metrics_json"@.len() == 12);
    assert("created_at"@.len() == 10 && "created_at"@[0] == 'c');
    let entries = seq![
        ("call_sid"@, JsonTree::Text(record.call_sid@)),
        ("stream_sid"@, JsonTree::Text(record.stream_sid@)),
        ("persona"@, JsonTree::Text(record.persona@)),
        ("scam_type"@, JsonTree::Text(record.scam_type@)),
        ("start_time"@, JsonTree::Text(record.start_time@)),
        ("end_time"@, JsonTree::Text(record.end_time@)),
        ("duration_seconds"@, JsonTree::Unsigned(record.duration_seconds)),
        ("transcript_text"@, JsonTree::Text(record.transcript_text@)),
        ("transcript_json"@, json::json_tree(record.transcript_json)),
        ("live_entities_json"@, json::json_tree(record.live_entities_json)),
        ("metrics_json"@, json::json_tree(record.metrics_json)),
        ("created_at"@, JsonTree::Text(record.created_at@)),
    ];
    json::law_object_holds_its_entries(entries, 0);
    json::law_object_holds_its_entries(entries, 1);
    json::law_object_holds_its_entries(entries, 2);
    json::law_object_holds_its_entries(entries, 3);
    json::law_object_holds_its_entries(entries, 4);
    json::law_object_holds_its_entries(entries, 5);
    json::law_object_holds_its_entries(entries, 6);
    json::law_object_holds_its_entries(entries, 7);
    json::law_object_holds_its_entries(entries, 8);
    json::law_object_holds_its_entries(entries, 9);
    json::law_object_holds_its_entries(entries, 10);
    json::law_object_holds_its_entries(entries, 11);
}

/// A transcript can be read back line by line, in its order.
pub proof fn law_transcript_is_written(lines: Seq<Line>, i: int)
    ensures
        0 <= i < lines.len() ==> transcript_tree(lines).element(i) == Some(line_tree(lines[i])),
        i < 0 || i >= lines.len() ==> transcript_tree(lines).element(i) is None,
{
}

/// The record of a call names it as it began, tells all that was said, and lasts a
/// second at least; what it was about is told of the same transcript.
pub proof fn law_finish(
    call: &CallTrackingState,
    end_time: String,
    elapsed_secs: u64,
    metrics: FinalCallMetrics,
    created_at: String,
    res: (CallRecord, CallIntelligence),
)
    requires
        call_ensures(
            CallTrackingState::finish,
            (call, end_time, elapsed_secs, metrics, created_at),
            res,
        ),
    ensures
        ({
            let (record, about) = res;
            &&& record.call_sid@ == call.start.call_sid@
            &&& record.stream_sid@ == call.start.stream_sid@
            &&& record.persona@ == call.start.persona@
            &&& record.scam_type@ == call.start.scam_type@
            &&& record.start_time@ == call.start_time@
            &&& record.created_at@ == call.start_time@
            &&& record.end_time@ == end_time@
            &&& elapsed_secs >= 1 ==> record.duration_seconds == elapsed_secs
            &&& elapsed_secs == 0 ==> record.duration_seconds == 1
            &&& record.transcript_text@ == transcript_of(lines_said(call.transcript@))
            &&& about.call_sid@ == record.call_sid@
            &&& about.scam_type@ == record.scam_type@
            &&& about.created_at@ == created_at@
            &&& text::text_view(about.impersonated_organisation) == organisation_in(
                record.transcript_text@,
            )
            &&& about.confidence_percent == confidence_in(record.transcript_text@)
            &&& json::json_tree(about.extraction_json) == json::json_tree(
                record.live_entities_json,
            )
        }),
{
}

/// What the caller and the agent say is recorded under who said it.
pub proof fn law_speakers_are_told_apart(
    user: &mut CallTrackingState,
    agent: &mut CallTrackingState,
    text: String,
    at_ms: u64,
    created_at: String,
)
    requires
        call_ensures(CallTrackingState::record_user_text, (user, text, at_ms, created_at), ()),
        call_ensures(
            CallTrackingState::record_assistant_text,
            (agent, text, at_ms, created_at),
            (),
        ),
        text::trimmed(text@).len() > 0,
    ensures
        final(user)@.lines == old(user)@.lines.push(
            Line { role: "user"@, text: text@, at_ms, created_at: created_at@ },
        ),
        final(agent)@.lines == old(agent)@.lines.push(
            Line { role: "assistant"@, text: text@, at_ms, created_at: created_at@ },
        ),
{
}

/// A time is told in seconds and, behind a full stop, in milliseconds.
pub proof fn law_now_timestamp(secs: u64, millis: u32, res: String)
    requires
        call_ensures(now_timestamp, (secs, millis), res),
    ensures
        ({
            let n = text::decimal(secs as nat).len() as int;
            &&& res@.take(n) == text::decimal(secs as nat)
            &&& res@[n] == '.'
            &&& res@.skip(n + 1) == text::decimal(millis as nat)
        }),
{
    let n = text::decimal(secs as nat).len() as int;
    assert(res@.take(n) =~= text::decimal(secs as nat));
    assert(res@.skip(n + 1) =~= text::decimal(millis as nat));
}

/// A call begins with nothing said and nothing given away.
pub proof fn law_call_begins_silent(start: CallStart, start_time: String, res: CallTrackingState)
    requires
        call_ensures(CallTrackingState::new, (start, start_time), res),
    ensures
        res@.lines.len() == 0,
        res@.live is None,
        res@.start.call_sid == start.call_sid@,
        res@.start.stream_sid == start.stream_sid@,
        res@.start.persona == start.persona@,
        res@.start.scam_type == start.scam_type@,
        res@.start.time == start_time@,
{
}

} // verus!
