//! The transcriber: what it says of the caller, and when a turn can be
//! answered before it is over.

use crate::config::AppState;
use crate::environment;
use crate::json;
use crate::json::JsonTree;
use crate::text;
use serde_json::Value;
use vstd::prelude::*;

verus! {

/// How long a transcript has to stand before it is answered in advance.
pub const PREDICTIVE_TRIGGER_MS: u64 = 120;

/// Where the transcriber is reached, with how it is to listen.
pub open spec fn listen_url(
    model: Seq<char>,
    language: Seq<char>,
    endpointing_ms: nat,
) -> Seq<char> {
    "wss://api.deepgram.com/v1/listen?model="@ + model + "&language="@ + language
        + "&encoding=mulaw&sample_rate=8000&channels=1&interim_results=true&endpointing="@
        + text::decimal(endpointing_ms) + "&vad_events=true&smart_format=true"@
}

/// Where the transcriber is reached, with how it is to listen.
pub fn deepgram_url(state: &AppState) -> (res: String)
    ensures
        res@ == listen_url(
            state.deepgram_model@,
            state.deepgram_language@,
            state.deepgram_endpointing_ms as nat,
        ),
{
    let mut res = "wss://api.deepgram.com/v1/listen?model=".to_owned();
    res.append(state.deepgram_model.as_str());
    res.append("&language=");
    res.append(state.deepgram_language.as_str());
    res.append(
        "&encoding=mulaw&sample_rate=8000&channels=1&interim_results=true&endpointing=",
    );
    res.append(text::decimal_text(state.deepgram_endpointing_ms as u64).as_str());
    res.append("&vad_events=true&smart_format=true");
    res
}

// ---------------------------------------------------------------------------
// What the transcriber says
// ---------------------------------------------------------------------------

/// The transcript of the first alternative, or nothing.
pub open spec fn transcript_in(tree: JsonTree) -> Seq<char> {
    match tree.member("channel"@) {
        Some(channel) => match channel.member("alternatives"@) {
            Some(alternatives) => match alternatives.element(0) {
                Some(first) => match first.text_at("transcript"@) {
                    Some(transcript) => transcript,
                    None => Seq::empty(),
                },
                None => Seq::empty(),
            },
            None => Seq::empty(),
        },
        None => Seq::empty(),
    }
}

/// The transcript of the first alternative, or nothing.
pub fn deepgram_transcript(value: &Value) -> (res: String)
    ensures
        res@ == transcript_in(json::json_tree(*value)),
{
    if let Some(channel) = json::member(value, "channel") {
        if let Some(alternatives) = json::member(channel, "alternatives") {
            if let Some(first) = json::element(alternatives, 0) {
                if let Some(transcript) = json::text_at(first, "transcript") {
                    return transcript;
                }
            }
        }
    }
    String::new()
}

/// A message of the transcriber.
pub enum DeepgramEvent {
    SpeechStarted,
    /// What the caller says, without white space around it.
    Transcript { text: String, is_final: bool, speech_final: bool },
}

/// What a message of the transcriber says.
pub ghost enum TranscriberNews {
    SpeechStarted,
    Transcript { text: Seq<char>, is_final: bool, speech_final: bool },
}

impl View for DeepgramEvent {
    type V = TranscriberNews;

    open spec fn view(&self) -> TranscriberNews {
        match *self {
            DeepgramEvent::SpeechStarted => TranscriberNews::SpeechStarted,
            DeepgramEvent::Transcript { text, is_final, speech_final } =>
                TranscriberNews::Transcript { text: text@, is_final, speech_final },
        }
    }
}

/// What a message of the transcriber says.
pub open spec fn transcriber_news_in(tree: JsonTree) -> TranscriberNews {
    if tree.text_at("type"@) == Some("SpeechStarted"@) {
        TranscriberNews::SpeechStarted
    } else {
        TranscriberNews::Transcript {
            text: text::trimmed(transcript_in(tree)),
            is_final: tree.flag_at("is_final"@) == Some(true),
            speech_final: tree.flag_at("speech_final"@) == Some(true),
        }
    }
}

/// What a message of the transcriber says.
pub fn deepgram_event(value: &Value) -> (res: DeepgramEvent)
    ensures
        res@ == transcriber_news_in(json::json_tree(*value)),
{
    if let Some(kind) = json::text_at(value, "type") {
        if text::same_text(kind.as_str(), "SpeechStarted") {
            return DeepgramEvent::SpeechStarted;
        }
    }
    let transcript = deepgram_transcript(value);
    DeepgramEvent::Transcript {
        text: text::trim(transcript.as_str()),
        is_final: match json::flag_at(value, "is_final") {
            Some(b) => b,
            None => false,
        },
        speech_final: match json::flag_at(value, "speech_final") {
            Some(b) => b,
            None => false,
        },
    }
}

/// What a message of the transcriber says, if it is JSON.
pub fn read_deepgram_event(text: &str) -> (res: Option<DeepgramEvent>)
    ensures
        res is Some <==> json::json_of_text(text@) is Some,
        res matches Some(event) ==> json::json_of_text(text@) matches Some(tree) && event@
            == transcriber_news_in(tree),
{
    match json::parse_json(text) {
        Some(value) => Some(deepgram_event(&value)),
        None => None,
    }
}

// ---------------------------------------------------------------------------
// Answers in advance
// ---------------------------------------------------------------------------

/// Enough was said to be answered in advance.
pub open spec fn is_candidate(s: Seq<char>) -> bool {
    text::words(text::trimmed(s)).len() >= 4
}

/// Whether enough was said to be answered in advance.
pub fn predictive_candidate(text: &str) -> (res: bool)
    ensures
        res == is_candidate(text@),
{
    let trimmed = text::trim(text);
    text::word_count(trimmed.as_str()) >= 4
}

/// Words that give away what a call is about.
pub open spec fn intents() -> Seq<Seq<char>> {
    seq![
        "calling from"@,
        "your account"@,
        "your bank"@,
        "transaction"@,
        "blocked"@,
        "urgent"@,
        "fraud"@,
        "employee number"@,
    ]
}

/// A text in lower case gives away what a call is about.
pub open spec fn has_intent(low: Seq<char>) -> bool {
    exists|i: int| 0 <= i < intents().len() && text::contains(low, #[trigger] intents()[i])
}

/// Whether a text in lower case gives away what a call is about.
pub fn lower_text_has_intent(low: &str) -> (res: bool)
    ensures
        res == has_intent(low@),
{
    let list: Vec<&'static str> = vec![
        "calling from",
        "your account",
        "your bank",
        "transaction",
        "blocked",
        "urgent",
        "fraud",
        "employee number",
    ];
    assert(forall|i: int| 0 <= i < intents().len() ==> (#[trigger] list@[i])@ == intents()[i]);
    let n: usize = list.len();
    for i in 0..n
        invariant
            n == list@.len(),
            n == intents().len(),
            forall|i: int| 0 <= i < intents().len() ==> (#[trigger] list@[i])@ == intents()[i],
            forall|j: int| 0 <= j < i ==> !text::contains(low@, #[trigger] intents()[j]),
    {
        assert(list@[i as int]@ == intents()[i as int]);
        if text::contains_text(low, list[i]) {
            return true;
        }
    }
    false
}

/// Whether a text gives away what a call is about, whatever its case.
pub fn contains_predictive_intent(text: &str) -> (res: bool)
    ensures
        res == has_intent(environment::unicode_lower(text@)),
        vstd::utf8::is_ascii_chars(text@) ==> res == has_intent(text::lower(text@)),
{
    let low = environment::to_lowercase(text);
    lower_text_has_intent(low.as_str())
}

// ---------------------------------------------------------------------------
// Turns
// ---------------------------------------------------------------------------

/// What the caller said in a turn.
pub struct UserUtterance {
    pub user_generation: u64,
    pub text: String,
    /// The turn may not be over.
    pub predictive: bool,
}

/// What the caller said in a turn.
pub ghost struct Utterance {
    pub user_generation: u64,
    pub text: Seq<char>,
    pub predictive: bool,
}

impl View for UserUtterance {
    type V = Utterance;

    open spec fn view(&self) -> Utterance {
        Utterance {
            user_generation: self.user_generation,
            text: self.text@,
            predictive: self.predictive,
        }
    }
}

pub open spec fn utterance_view(utterance: Option<UserUtterance>) -> Option<Utterance> {
    match utterance {
        Some(utterance) => Some(utterance@),
        None => None,
    }
}

/// A transcript that is answered in advance if it still stands after
/// [`PREDICTIVE_TRIGGER_MS`].
pub struct Prediction {
    pub seq: u64,
    pub user_generation: u64,
    pub text: String,
}

/// A transcript that may be answered in advance.
pub ghost struct Guess {
    pub seq: u64,
    pub user_generation: u64,
    pub text: Seq<char>,
}

impl View for Prediction {
    type V = Guess;

    open spec fn view(&self) -> Guess {
        Guess { seq: self.seq, user_generation: self.user_generation, text: self.text@ }
    }
}

pub open spec fn prediction_view(prediction: Option<Prediction>) -> Option<Guess> {
    match prediction {
        Some(prediction) => Some(prediction@),
        None => None,
    }
}

/// The turns of the caller.
pub struct DeepgramTurns {
    /// The number of the turn.
    pub user_generation: u64,
    /// What was said in the turn for certain.
    pub final_parts: Vec<String>,
    /// The number of the last prediction.
    pub predictive_seq: u64,
    /// The last turn that was answered in advance.
    pub predicted_generation: u64,
}

/// The turns of the caller.
pub ghost struct Turns {
    pub user_generation: u64,
    pub final_parts: Seq<Seq<char>>,
    pub predictive_seq: u64,
    pub predicted_generation: u64,
}

impl View for DeepgramTurns {
    type V = Turns;

    open spec fn view(&self) -> Turns {
        Turns {
            user_generation: self.user_generation,
            final_parts: text::texts(self.final_parts@),
            predictive_seq: self.predictive_seq,
            predicted_generation: self.predicted_generation,
        }
    }
}

impl Turns {
    /// Nothing was said.
    pub open spec fn fresh() -> Turns {
        Turns {
            user_generation: 1,
            final_parts: Seq::empty(),
            predictive_seq: 0,
            predicted_generation: 0,
        }
    }

    /// The caller starts a turn.
    pub open spec fn started(self) -> Turns {
        Turns {
            user_generation: (self.user_generation + 1) as u64,
            final_parts: Seq::empty(),
            predictive_seq: self.predictive_seq.wrapping_add(1),
            ..self
        }
    }

    /// A transcript is worth a prediction.
    pub open spec fn predicts(text: Seq<char>, is_final: bool) -> bool {
        !is_final && text.len() > 0 && is_candidate(text)
    }

    /// The prediction that a transcript gives rise to.
    pub open spec fn guess(self, text: Seq<char>, is_final: bool) -> Option<Guess> {
        if Turns::predicts(text, is_final) {
            Some(
                Guess {
                    seq: (self.predictive_seq + 1) as u64,
                    user_generation: self.user_generation,
                    text,
                },
            )
        } else {
            None
        }
    }

    /// The parts of the turn with a transcript that is certain.
    pub open spec fn parts_with(self, text: Seq<char>, is_final: bool) -> Seq<Seq<char>> {
        if is_final && text.len() > 0 {
            self.final_parts.push(text)
        } else {
            self.final_parts
        }
    }

    /// What was said in the turn when it ends.
    pub open spec fn said(self, text: Seq<char>, is_final: bool) -> Seq<char> {
        text::trimmed(text::join(self.parts_with(text, is_final), " "@))
    }

    /// The utterance that a transcript ends.
    pub open spec fn utterance(
        self,
        text: Seq<char>,
        is_final: bool,
        speech_final: bool,
    ) -> Option<Utterance> {
        if speech_final && self.said(text, is_final).len() > 0 {
            Some(
                Utterance {
                    user_generation: self.user_generation,
                    text: self.said(text, is_final),
                    predictive: false,
                },
            )
        } else {
            None
        }
    }

    /// The turns after a transcript.
    pub open spec fn with_transcript(
        self,
        text: Seq<char>,
        is_final: bool,
        speech_final: bool,
    ) -> Turns {
        Turns {
            final_parts: if speech_final {
                Seq::empty()
            } else {
                self.parts_with(text, is_final)
            },
            predictive_seq: if Turns::predicts(text, is_final) {
                (self.predictive_seq + 1) as u64
            } else {
                self.predictive_seq
            },
            ..self
        }
    }

    /// A prediction still stands, and its turn was not answered in advance.
    pub open spec fn holds(self, guess: Guess) -> bool {
        self.predictive_seq == guess.seq && self.predicted_generation != guess.user_generation
    }

    /// The turns when the wait of a prediction is over.
    pub open spec fn weighed(self, guess: Guess) -> Turns {
        if self.predictive_seq == guess.seq {
            Turns { predicted_generation: guess.user_generation, ..self }
        } else {
            self
        }
    }
}

/// What a message of the transcriber gives rise to.
pub struct Transcribed {
    /// Wait, and ask [`DeepgramTurns::prediction_due`].
    pub prediction: Option<Prediction>,
    /// Record it, and answer it.
    pub utterance: Option<UserUtterance>,
}

impl DeepgramTurns {
    /// Nothing was said.
    pub fn new() -> (res: Self)
        ensures
            res@ == Turns::fresh(),
    {
        let res = DeepgramTurns {
            user_generation: 1,
            final_parts: Vec::new(),
            predictive_seq: 0,
            predicted_generation: 0,
        };
        assert(text::texts(res.final_parts@) =~= Seq::<Seq<char>>::empty());
        res
    }

    /// Takes a message of the transcriber.
    pub fn hear(&mut self, event: DeepgramEvent) -> (res: Transcribed)
        requires
            event@ is SpeechStarted ==> old(self).user_generation < u64::MAX,
            event@ matches TranscriberNews::Transcript { text, is_final, .. } && Turns::predicts(
                text,
                is_final,
            ) ==> old(self).predictive_seq < u64::MAX,
        ensures
            match event@ {
                TranscriberNews::SpeechStarted => {
                    &&& res.prediction is None
                    &&& res.utterance is None
                    &&& final(self)@ == old(self)@.started()
                },
                TranscriberNews::Transcript { text, is_final, speech_final } => {
                    &&& prediction_view(res.prediction) == old(self)@.guess(text, is_final)
                    &&& utterance_view(res.utterance) == old(self)@.utterance(
                        text,
                        is_final,
                        speech_final,
                    )
                    &&& final(self)@ == old(self)@.with_transcript(text, is_final, speech_final)
                },
            },
    {
        match event {
            DeepgramEvent::SpeechStarted => {
                self.user_generation = self.user_generation + 1;
                self.final_parts = Vec::new();
                self.predictive_seq = self.predictive_seq.wrapping_add(1);
                assert(text::texts(self.final_parts@) =~= Seq::<Seq<char>>::empty());
                Transcribed { prediction: None, utterance: None }
            },
            DeepgramEvent::Transcript { text, is_final, speech_final } => {
                let prediction = self.predict(text.as_str(), is_final);
                self.keep(text, is_final);
                let utterance = if speech_final {
                    self.end_turn()
                } else {
                    None
                };
                Transcribed { prediction, utterance }
            },
        }
    }

    fn predict(&mut self, text: &str, is_final: bool) -> (res: Option<Prediction>)
        requires
            Turns::predicts(text@, is_final) ==> old(self).predictive_seq < u64::MAX,
        ensures
            prediction_view(res) == old(self)@.guess(text@, is_final),
            final(self)@ == (Turns {
                predictive_seq: if Turns::predicts(text@, is_final) {
                    (old(self).predictive_seq + 1) as u64
                } else {
                    old(self).predictive_seq
                },
                ..old(self)@
            }),
    {
        if !is_final && !text.is_empty() && predictive_candidate(text) {
            self.predictive_seq = self.predictive_seq + 1;
            Some(
                Prediction {
                    seq: self.predictive_seq,
                    user_generation: self.user_generation,
                    text: text.to_owned(),
                },
            )
        } else {
            None
        }
    }

    fn keep(&mut self, text: String, is_final: bool)
        ensures
            final(self)@ == (Turns {
                final_parts: old(self)@.parts_with(text@, is_final),
                ..old(self)@
            }),
    {
        if is_final && !text.as_str().is_empty() {
            let ghost parts = self.final_parts@;
            let ghost held = text@;
            self.final_parts.push(text);
            assert(text::texts(self.final_parts@) =~= text::texts(parts).push(held));
        }
    }

    fn end_turn(&mut self) -> (res: Option<UserUtterance>)
        ensures
            ({
                let said = text::trimmed(text::join(old(self)@.final_parts, " "@));
                utterance_view(res) == if said.len() > 0 {
                    Some(
                        Utterance {
                            user_generation: old(self).user_generation,
                            text: said,
                            predictive: false,
                        },
                    )
                } else {
                    None
                }
            }),
            final(self)@ == (Turns { final_parts: Seq::empty(), ..old(self)@ }),
    {
        let joined = text::join_texts(self.final_parts.as_slice(), " ");
        let said = text::trim(joined.as_str());
        self.final_parts = Vec::new();
        assert(text::texts(self.final_parts@) =~= Seq::<Seq<char>>::empty());
        if said.as_str().is_empty() {
            return None;
        }
        Some(UserUtterance { user_generation: self.user_generation, text: said, predictive: false })
    }

    /// The wait of a prediction is over. Returns what is to be answered in
    /// advance, if the prediction stands and its turn was not answered so
    /// before.
    pub fn prediction_due(&mut self, prediction: Prediction) -> (res: Option<UserUtterance>)
        ensures
            utterance_view(res) == if old(self)@.holds(prediction@) {
                Some(
                    Utterance {
                        user_generation: prediction.user_generation,
                        text: prediction.text@,
                        predictive: true,
                    },
                )
            } else {
                None
            },
            final(self)@ == old(self)@.weighed(prediction@),
    {
        if self.predictive_seq != prediction.seq {
            return None;
        }
        let before: u64 = self.predicted_generation;
        self.predicted_generation = prediction.user_generation;
        if before == prediction.user_generation {
            return None;
        }
        Some(
            UserUtterance {
                user_generation: prediction.user_generation,
                text: prediction.text,
                predictive: true,
            },
        )
    }
}

// ---------------------------------------------------------------------------
// Laws
// ---------------------------------------------------------------------------

/// A turn is answered in advance at most once: after a prediction of a turn
/// has stood, none of the same turn does.
pub proof fn law_turn_is_predicted_once(turns: Turns, first: Guess, second: Guess)
    requires
        turns.holds(first),
        first.user_generation == second.user_generation,
    ensures
        !turns.weighed(first).holds(second),
{
}

/// A newer transcript that is worth a prediction, or a new turn, undoes the
/// prediction before it.
pub proof fn law_news_undo_predictions(
    turns: Turns,
    guess: Guess,
    text: Seq<char>,
    speech_final: bool,
)
    requires
        turns.predictive_seq < u64::MAX,
        guess.seq == turns.predictive_seq,
    ensures
        !turns.started().holds(guess),
        Turns::predicts(text, false) ==> !turns.with_transcript(text, false, speech_final).holds(
            guess,
        ),
{
}

/// What the transcriber is certain of is said once: after the end of a turn,
/// nothing of it is said again.
pub proof fn law_parts_are_said_once(turns: Turns, text: Seq<char>, is_final: bool)
    ensures
        turns.with_transcript(text, is_final, true).utterance(Seq::empty(), false, true) is None,
{
    let after = turns.with_transcript(text, is_final, true);
    assert(text::join(after.final_parts, " "@) =~= Seq::<char>::empty());
}

/// Something that happens to the turns of the caller: the transcriber says
/// something, or the wait of a prediction is over.
pub ghost enum TurnEvent {
    Heard { news: TranscriberNews },
    Due { guess: Guess },
}

impl Turns {
    /// The turns after something has happened.
    pub open spec fn with(self, event: TurnEvent) -> Turns {
        match event {
            TurnEvent::Heard { news: TranscriberNews::SpeechStarted } => self.started(),
            TurnEvent::Heard {
                news: TranscriberNews::Transcript { text, is_final, speech_final },
            } => self.with_transcript(text, is_final, speech_final),
            TurnEvent::Due { guess } => self.weighed(guess),
        }
    }

    /// The turns after all of this has happened in order.
    pub open spec fn with_all(self, story: Seq<TurnEvent>) -> Turns
        decreases story.len(),
    {
        if story.len() == 0 {
            self
        } else {
            self.with_all(story.drop_last()).with(story.last())
        }
    }

    /// The predictions that arise while all of this happens.
    pub open spec fn guesses(self, story: Seq<TurnEvent>) -> Seq<Guess>
        decreases story.len(),
    {
        if story.len() == 0 {
            Seq::empty()
        } else {
            let before = self.guesses(story.drop_last());
            match story.last() {
                TurnEvent::Heard {
                    news: TranscriberNews::Transcript { text, is_final, .. },
                } => match self.with_all(story.drop_last()).guess(text, is_final) {
                    Some(guess) => before.push(guess),
                    None => before,
                },
                _ => before,
            }
        }
    }

    /// The turns that are answered in advance while all of this happens, in
    /// order.
    pub open spec fn predicted(self, story: Seq<TurnEvent>) -> Seq<u64>
        decreases story.len(),
    {
        if story.len() == 0 {
            Seq::empty()
        } else {
            let before = self.predicted(story.drop_last());
            match story.last() {
                TurnEvent::Due { guess } => if self.with_all(story.drop_last()).holds(guess) {
                    before.push(guess.user_generation)
                } else {
                    before
                },
                _ => before,
            }
        }
    }

    /// Only predictions that have arisen fall due.
    pub open spec fn tells_its_own(self, story: Seq<TurnEvent>) -> bool
        decreases story.len(),
    {
        story.len() > 0 ==> {
            &&& self.tells_its_own(story.drop_last())
            &&& story.last() matches TurnEvent::Due { guess } ==> self.guesses(
                story.drop_last(),
            ).contains(guess)
        }
    }
}

proof fn lemma_numbers_in_step(story: Seq<TurnEvent>)
    requires
        story.len() < u64::MAX,
        Turns::fresh().tells_its_own(story),
    ensures
        ({
            let turns = Turns::fresh().with_all(story);
            let guesses = Turns::fresh().guesses(story);
            let predicted = Turns::fresh().predicted(story);
            &&& turns.predictive_seq <= story.len()
            &&& turns.user_generation <= story.len() + 1
            &&& turns.predicted_generation <= turns.user_generation
            &&& forall|g: Guess| #[trigger]
                guesses.contains(g) ==> {
                    &&& g.seq <= turns.predictive_seq
                    &&& g.user_generation <= turns.user_generation
                    &&& g.seq == turns.predictive_seq ==> g.user_generation
                        == turns.user_generation
                }
            &&& forall|i: int|
                0 <= i < predicted.len() ==> #[trigger] predicted[i] <= turns.predicted_generation
            &&& forall|i: int, j: int|
                0 <= i < j < predicted.len() ==> predicted[i] < predicted[j]
        }),
    decreases story.len(),
{
    if story.len() > 0 {
        let front = story.drop_last();
        lemma_numbers_in_step(front);
        let before = Turns::fresh().with_all(front);
        let turns = Turns::fresh().with_all(story);
        let older = Turns::fresh().guesses(front);
        let guesses = Turns::fresh().guesses(story);
        assert forall|g: Guess| #[trigger] guesses.contains(g) implies {
            &&& g.seq <= turns.predictive_seq
            &&& g.user_generation <= turns.user_generation
            &&& g.seq == turns.predictive_seq ==> g.user_generation == turns.user_generation
        } by {
            let k = choose|k: int| 0 <= k < guesses.len() && guesses[k] == g;
            if k < older.len() {
                assert(older[k] == g);
                assert(older.contains(g));
            }
        }
        let past = Turns::fresh().predicted(front);
        let predicted = Turns::fresh().predicted(story);
        match story.last() {
            TurnEvent::Due { guess } => {
                assert(older.contains(guess));
                if before.predictive_seq == guess.seq {
                    assert(before.predicted_generation <= guess.user_generation);
                    assert(turns.predicted_generation == guess.user_generation);
                }
            },
            TurnEvent::Heard { .. } => {
                assert(turns.predicted_generation == before.predicted_generation);
                assert(predicted == past);
            },
        }
        assert forall|i: int| 0 <= i < predicted.len() implies #[trigger] predicted[i]
            <= turns.predicted_generation by {
            if i < past.len() {
                assert(predicted[i] == past[i]);
            }
        }
        assert forall|i: int, j: int| 0 <= i < j < predicted.len() implies predicted[i]
            < predicted[j] by {
            assert(predicted[i] == past[i]);
            if j < past.len() {
                assert(predicted[j] == past[j]);
            }
        }
    }
}

/// Whatever the transcriber says and whenever the waits end, the turns that are
/// answered in advance rise: none is answered so twice, and none after a later
/// one.
pub proof fn law_predicted_turns_rise(story: Seq<TurnEvent>)
    requires
        story.len() < u64::MAX,
        Turns::fresh().tells_its_own(story),
    ensures
        forall|i: int, j: int|
            0 <= i < j < Turns::fresh().predicted(story).len() ==> Turns::fresh().predicted(
                story,
            )[i] < Turns::fresh().predicted(story)[j],
{
    lemma_numbers_in_step(story);
}

/// A message that says so begins a turn; any other is a transcript: the text of
/// the first alternative, without white space around it, or none where there is
/// no such text. It is final only where it says so, and so is the speech.
pub proof fn law_messages_are_read(tree: JsonTree, text: Seq<char>)
    ensures
        ({
            let news = transcriber_news_in(tree);
            let kind = tree.text_at("type"@);
            &&& kind == Some("SpeechStarted"@) <==> news is SpeechStarted
            &&& kind != Some("SpeechStarted"@) ==> {
                &&& news is Transcript
                &&& news->is_final <==> tree.member("is_final"@) == Some(JsonTree::Bool(true))
                &&& news->speech_final <==> tree.member("speech_final"@) == Some(
                    JsonTree::Bool(true),
                )
                &&& tree.member("channel"@) is None ==> news->text.len() == 0
                &&& (tree.member("channel"@) matches Some(channel) ==> channel.member(
                    "alternatives"@,
                ) matches Some(list) ==> list.element(0) matches Some(first) ==> first.member(
                    "transcript"@,
                ) == Some(JsonTree::Text(text)) ==> news->text == text::trimmed(text))
            }
        }),
{
    reveal_with_fuel(text::trim_front, 1);
    assert(text::trimmed(Seq::<char>::empty()) =~= Seq::<char>::empty());
}

/// A turn begins with the next number and without a word, and what was guessed
/// before it stands no more. Which turn was answered in advance does not change.
pub proof fn law_turn_begins(turns: Turns, guess: Guess)
    requires
        turns.user_generation < u64::MAX,
        turns.predictive_seq < u64::MAX,
        guess.seq <= turns.predictive_seq,
    ensures
        turns.started().user_generation == turns.user_generation + 1,
        turns.started().final_parts.len() == 0,
        turns.started().predictive_seq == turns.predictive_seq + 1,
        turns.started().predicted_generation == turns.predicted_generation,
        !turns.started().holds(guess),
{
}

/// A transcript that is certain, and not empty, is added to what was said in the
/// turn; one that is not certain, and an empty one, adds nothing. When the speech
/// is over nothing is left for the next turn. The number of the turn, and which
/// turn was answered in advance, never change.
pub proof fn law_certain_parts_are_kept(
    turns: Turns,
    text: Seq<char>,
    is_final: bool,
    speech_final: bool,
)
    ensures
        ({
            let after = turns.with_transcript(text, is_final, speech_final);
            &&& speech_final ==> after.final_parts.len() == 0
            &&& !speech_final && is_final && text.len() > 0 ==> after.final_parts
                == turns.final_parts.push(text)
            &&& !speech_final && (!is_final || text.len() == 0) ==> after.final_parts
                == turns.final_parts
            &&& after.user_generation == turns.user_generation
            &&& after.predicted_generation == turns.predicted_generation
            &&& is_final ==> after.predictive_seq == turns.predictive_seq
        }),
{
}

/// A turn is over when the speech is, and not before. Everything certain that was
/// said in it then comes out in order, with one space between the parts, as long
/// as there is anything but white space in it. It carries the number of the turn,
/// and is no prediction.
pub proof fn law_turn_comes_out_whole(turns: Turns, text: Seq<char>, speech_final: bool)
    ensures
        turns.utterance(text, true, false) is None,
        turns.utterance(text, false, false) is None,
        ({
            let all = text::join(turns.final_parts.push(text), " "@);
            text.len() > 0 ==> turns.utterance(text, true, true) == if text::trimmed(all).len()
                > 0 {
                Some(
                    Utterance {
                        user_generation: turns.user_generation,
                        text: text::trimmed(all),
                        predictive: false,
                    },
                )
            } else {
                None
            }
        }),
        ({
            let all = text::join(turns.final_parts, " "@);
            let out = if text::trimmed(all).len() > 0 {
                Some(
                    Utterance {
                        user_generation: turns.user_generation,
                        text: text::trimmed(all),
                        predictive: false,
                    },
                )
            } else {
                None
            };
            &&& turns.utterance(text, false, true) == out
            &&& turns.utterance(Seq::empty(), true, true) == out
        }),
{
}

/// A story of a turn: after a turn has begun, transcripts that are certain and
/// not empty come one after the other, with others that are not certain anywhere
/// between them. What was said is then what was certain, in its order.
pub proof fn law_parts_add_up(turns: Turns, heard: Seq<(Seq<char>, bool)>)
    requires
        turns.final_parts.len() == 0,
        forall|i: int| 0 <= i < heard.len() ==> (#[trigger] heard[i]).0.len() > 0,
    ensures
        turns.with_all(
            heard.map_values(
                |part: (Seq<char>, bool)|
                    TurnEvent::Heard {
                        news: TranscriberNews::Transcript {
                            text: part.0,
                            is_final: part.1,
                            speech_final: false,
                        },
                    },
            ),
        ).final_parts == heard.filter(|part: (Seq<char>, bool)| part.1).map_values(
            |part: (Seq<char>, bool)| part.0,
        ),
    decreases heard.len(),
{
    reveal(Seq::filter);
    let event = |part: (Seq<char>, bool)|
        TurnEvent::Heard {
            news: TranscriberNews::Transcript {
                text: part.0,
                is_final: part.1,
                speech_final: false,
            },
        };
    let story = heard.map_values(event);
    let certain = |part: (Seq<char>, bool)| part.1;
    let said = |part: (Seq<char>, bool)| part.0;
    if heard.len() > 0 {
        let shorter = heard.drop_last();
        assert forall|i: int| 0 <= i < shorter.len() implies (#[trigger] shorter[i]).0.len()
            > 0 by {
            assert(heard[i].0.len() > 0);
        }
        law_parts_add_up(turns, shorter);
        assert(story.drop_last() =~= shorter.map_values(event));
        assert(heard[heard.len() - 1].0.len() > 0);
        if heard.last().1 {
            assert(heard.filter(certain).map_values(said) =~= shorter.filter(certain).map_values(
                said,
            ).push(heard.last().0));
        }
    } else {
        assert(turns.final_parts =~= Seq::<Seq<char>>::empty());
        assert(heard.filter(certain).map_values(said) =~= Seq::<Seq<char>>::empty());
    }
}

/// A transcript that is not certain and has four words or more is guessed to be
/// the turn, as it stands, whatever was said before; a certain one, and one of
/// fewer words, is not. Nothing else raises the number of guesses.
pub proof fn law_four_words_are_guessed(turns: Turns, text: Seq<char>, speech_final: bool)
    requires
        turns.predictive_seq < u64::MAX,
    ensures
        turns.guess(text, true) is None,
        text::words(text::trimmed(text)).len() >= 4 ==> {
            &&& turns.guess(text, false) == Some(
                Guess {
                    seq: (turns.predictive_seq + 1) as u64,
                    user_generation: turns.user_generation,
                    text,
                },
            )
            &&& turns.with_transcript(text, false, speech_final).predictive_seq
                == turns.predictive_seq + 1
        },
        text::words(text::trimmed(text)).len() < 4 ==> {
            &&& turns.guess(text, false) is None
            &&& turns.with_transcript(text, false, speech_final).predictive_seq
                == turns.predictive_seq
        },
{
    if text.len() == 0 {
        assert(text =~= Seq::<char>::empty());
        assert(text::trimmed(text) =~= Seq::<char>::empty());
        assert(text::split(text, text::white()) =~= seq![Seq::<char>::empty()]);
        assert(text::words(text) =~= Seq::<Seq<char>>::empty()) by {
            reveal_with_fuel(Seq::filter, 2);
            assert(seq![Seq::<char>::empty()].drop_last() =~= Seq::<Seq<char>>::empty());
        }
    }
}

/// A guess that was just made is answered in advance when its wait is over,
/// unless its turn was answered so before, and however many transcripts that are
/// certain came meanwhile. Then the turn counts as answered in advance.
pub proof fn law_guess_is_answered(turns: Turns, text: Seq<char>, certain: Seq<char>)
    requires
        turns.predictive_seq < u64::MAX,
        turns.guess(text, false) is Some,
    ensures
        ({
            let guess = turns.guess(text, false)->0;
            let after = turns.with_transcript(text, false, false);
            let later = after.with_transcript(certain, true, false);
            &&& after.holds(guess) <==> turns.predicted_generation != turns.user_generation
            &&& later.holds(guess) <==> turns.predicted_generation != turns.user_generation
            &&& after.weighed(guess).predicted_generation == turns.user_generation
            &&& !after.weighed(guess).holds(guess)
        }),
{
}

/// Two numbers decide about a guess: it stands where it is the newest and its
/// turn is not the one that was answered in advance. When its wait is over only
/// the number of the turn that was answered in advance changes, and only for the
/// newest guess.
pub proof fn law_newest_guess_stands(turns: Turns, guess: Guess)
    ensures
        turns.holds(guess) <==> guess.seq == turns.predictive_seq && guess.user_generation
            != turns.predicted_generation,
        guess.seq == turns.predictive_seq ==> turns.weighed(guess) == (Turns {
            predicted_generation: guess.user_generation,
            ..turns
        }),
        guess.seq != turns.predictive_seq ==> turns.weighed(guess) == turns,
{
}

/// What a call is about is given away by eight phrases, each of them alone, and
/// by nothing else.
pub proof fn law_intents_give_away(low: Seq<char>)
    ensures
        has_intent(low) <==> text::contains(low, "calling from"@) || text::contains(
            low,
            "your account"@,
        ) || text::contains(low, "your bank"@) || text::contains(low, "transaction"@)
            || text::contains(low, "blocked"@) || text::contains(low, "urgent"@) || text::contains(
            low,
            "fraud"@,
        ) || text::contains(low, "employee number"@),
{
    let list = intents();
    assert(list[0] == "calling from"@);
    assert(list[1] == "your account"@);
    assert(list[2] == "your bank"@);
    assert(list[3] == "transaction"@);
    assert(list[4] == "blocked"@);
    assert(list[5] == "urgent"@);
    assert(list[6] == "fraud"@);
    assert(list[7] == "employee number"@);
}

/// A guess whose wait is over is answered, as a prediction and as it stands, where
/// it is the newest and its turn was not answered in advance; its turn then counts
/// as answered so. An older guess changes nothing.
pub proof fn law_prediction_due(
    turns: &mut DeepgramTurns,
    prediction: Prediction,
    res: Option<UserUtterance>,
)
    requires
        call_ensures(DeepgramTurns::prediction_due, (turns, prediction), res),
    ensures
        ({
            let newest = old(turns).predictive_seq == prediction.seq;
            let before = old(turns).predicted_generation == prediction.user_generation;
            &&& res is Some <==> newest && !before
            &&& res matches Some(utterance) ==> {
                &&& utterance.user_generation == prediction.user_generation
                &&& utterance.text@ == prediction.text@
                &&& utterance.predictive
            }
            &&& newest ==> final(turns)@ == (Turns {
                predicted_generation: prediction.user_generation,
                ..old(turns)@
            })
            &&& !newest ==> final(turns)@ == old(turns)@
        }),
{
}

/// A message of the transcriber is heard exactly where it is JSON.
pub proof fn law_read_deepgram_event(text: &str, tree: JsonTree, res: Option<DeepgramEvent>)
    requires
        call_ensures(read_deepgram_event, (text,), res),
    ensures
        json::json_of_text(text@) is None ==> res is None,
        json::json_of_text(text@) == Some(tree) ==> res is Some,
        json::json_of_text(text@) == Some(tree) ==> (res->0@ is SpeechStarted <==> tree.text_at(
            "type"@,
        ) == Some("SpeechStarted"@)),
{
}

/// What the caller says is guessed and kept as it comes: a transcript that is
/// certain is added to the turn, one that is not and has four words is guessed, and
/// the turn comes out when the speech is over.
pub proof fn law_hear(
    turns: &mut DeepgramTurns,
    event: DeepgramEvent,
    text: Seq<char>,
    is_final: bool,
    speech_final: bool,
    res: Transcribed,
)
    requires
        call_ensures(DeepgramTurns::hear, (turns, event), res),
        event@ == (TranscriberNews::Transcript { text, is_final, speech_final }),
        old(turns).predictive_seq < u64::MAX,
        text.len() > 0,
    ensures
        final(turns).user_generation == old(turns).user_generation,
        is_final && !speech_final ==> final(turns)@.final_parts == old(turns)@.final_parts.push(
            text,
        ),
        !is_final && !speech_final ==> final(turns)@.final_parts == old(turns)@.final_parts,
        speech_final ==> final(turns)@.final_parts.len() == 0,
        !speech_final ==> res.utterance is None,
        speech_final && is_final && text::trimmed(
            text::join(old(turns)@.final_parts.push(text), " "@),
        ).len() > 0 ==> (res.utterance matches Some(utterance) && utterance.text@ == text::trimmed(
            text::join(old(turns)@.final_parts.push(text), " "@),
        ) && utterance.user_generation == old(turns).user_generation && !utterance.predictive),
        is_final ==> res.prediction is None,
        !is_final ==> (res.prediction is Some <==> text::words(text::trimmed(text)).len() >= 4),
        res.prediction matches Some(prediction) ==> prediction.text@ == text
            && prediction.user_generation == old(turns).user_generation && prediction.seq
            == old(turns).predictive_seq + 1 && final(turns).predictive_seq == prediction.seq,
{
}

/// The transcriber is reached under its model and its language, as they are set,
/// and told when speech is over, in milliseconds. Nothing else in the address
/// depends on them.
pub proof fn law_listen_url(
    model: Seq<char>,
    language: Seq<char>,
    endpointing_ms: nat,
    other_model: Seq<char>,
    other_language: Seq<char>,
)
    ensures
        ({
            let head = "wss://api.deepgram.com/v1/listen?model="@;
            let named = head + model + "&language="@ + language;
            let other = head + other_model + "&language="@ + other_language;
            let url = listen_url(model, language, endpointing_ms);
            let other_url = listen_url(other_model, other_language, endpointing_ms);
            let told = "&endpointing="@ + text::decimal(endpointing_ms) + "&"@;
            &&& url.take(named.len() as int) == named
            &&& url.skip(named.len() as int) == other_url.skip(other.len() as int)
            &&& text::contains(url, told)
        }),
{
    reveal_strlit("&endpointing=");
    reveal_strlit("&");
    reveal_strlit("&vad_events=true&smart_format=true");
    reveal_strlit("&encoding=mulaw&sample_rate=8000&channels=1&interim_results=true&endpointing=");
    let head = "wss://api.deepgram.com/v1/listen?model="@;
    let named = head + model + "&language="@ + language;
    let other = head + other_model + "&language="@ + other_language;
    let url = listen_url(model, language, endpointing_ms);
    let other_url = listen_url(other_model, other_language, endpointing_ms);
    let middle = "&encoding=mulaw&sample_rate=8000&channels=1&interim_results=true&endpointing="@;
    let end = "&vad_events=true&smart_format=true"@;
    let rest = middle + text::decimal(endpointing_ms) + end;
    assert(url =~= named + rest);
    assert(other_url =~= other + rest);
    assert(url.take(named.len() as int) =~= named);
    assert(url.skip(named.len() as int) =~= rest);
    assert(other_url.skip(other.len() as int) =~= rest);
    let told = "&endpointing="@ + text::decimal(endpointing_ms) + "&"@;
    let n = middle.len() - 13;
    assert(middle.skip(n) =~= "&endpointing="@);
    assert(end.take(1) =~= "&"@);
    assert(url =~= (named + middle.take(n)) + told + end.skip(1));
    text::law_holds_its_parts(named + middle.take(n), told, end.skip(1));
}

/// Four words are enough to be answered in advance, and three are not.
pub proof fn law_predictive_candidate(text: &str, res: bool)
    requires
        call_ensures(predictive_candidate, (text,), res),
    ensures
        res <==> text::words(text::trimmed(text@)).len() >= 4,
{
}

/// A text in ASCII gives away what a call is about in either case.
pub proof fn law_contains_predictive_intent(text: &str, res: bool)
    requires
        call_ensures(contains_predictive_intent, (text,), res),
        vstd::utf8::is_ascii_chars(text@),
    ensures
        text::contains(text::lower(text@), "fraud"@) ==> res,
        text::contains(text::lower(text@), "calling from"@) ==> res,
        text::contains(text::lower(text@), "your account"@) ==> res,
        text::contains(text::lower(text@), "your bank"@) ==> res,
        text::contains(text::lower(text@), "transaction"@) ==> res,
        text::contains(text::lower(text@), "blocked"@) ==> res,
        text::contains(text::lower(text@), "urgent"@) ==> res,
        text::contains(text::lower(text@), "employee number"@) ==> res,
{
    law_intents_give_away(text::lower(text@));
}

/// Where any part on the way to the text of the first alternative is missing, a
/// transcript is empty; where all are there it is that text, without white space
/// around it.
pub proof fn law_missing_transcript_is_empty(tree: JsonTree)
    requires
        tree.text_at("type"@) != Some("SpeechStarted"@),
    ensures
        ({
            let news = transcriber_news_in(tree);
            let channel = tree.member("channel"@);
            let list = if channel is Some {
                channel->0.member("alternatives"@)
            } else {
                None
            };
            let first = if list is Some {
                list->0.element(0)
            } else {
                None
            };
            let text = if first is Some {
                first->0.text_at("transcript"@)
            } else {
                None
            };
            &&& news is Transcript
            &&& text is None ==> news->text.len() == 0
            &&& text is Some ==> news->text == text::trimmed(text->0)
        }),
{
    assert(text::trimmed(Seq::<char>::empty()) =~= Seq::<char>::empty());
}

} // verus!
