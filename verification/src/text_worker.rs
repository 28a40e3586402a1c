//! The language model: which turn it answers, what it is told, and what is made
//! of its reply.

use crate::config::AppState;
use crate::deepgram::{UserUtterance, Utterance};
use crate::humanize;
use crate::humanize::{HumanizedSpeech, ToneProfile};
use crate::json;
use crate::json::JsonTree;
use crate::response_policy;
use crate::signals::{RealtimeSignals, Signals};
use crate::text;
use serde_json::Value;
use vstd::prelude::*;

verus! {

/// The messages of the conversation that the model is told.
pub const HISTORY_MESSAGES: usize = 10;

// ---------------------------------------------------------------------------
// History
// ---------------------------------------------------------------------------

/// The messages of a conversation, each with who said it.
pub open spec fn messages(history: Seq<(String, String)>) -> Seq<(Seq<char>, Seq<char>)> {
    history.map_values(|message: (String, String)| (message.0@, message.1@))
}

/// The last messages.
pub open spec fn recent(
    history: Seq<(Seq<char>, Seq<char>)>,
    max_messages: nat,
) -> Seq<(Seq<char>, Seq<char>)> {
    if history.len() > max_messages {
        history.skip(history.len() - max_messages)
    } else {
        history
    }
}

/// Keeps the last messages.
pub fn keep_recent_history(history: &mut Vec<(String, String)>, max_messages: usize)
    ensures
        messages(final(history)@) == recent(messages(old(history)@), max_messages as nat),
{
    let n: usize = history.len();
    if n > max_messages {
        let tail = history.split_off(n - max_messages);
        assert(messages(tail@) =~= messages(old(history)@).skip(n - max_messages));
        *history = tail;
    }
}

/// The last messages with one more.
pub open spec fn remembered(
    history: Seq<(Seq<char>, Seq<char>)>,
    role: Seq<char>,
    content: Seq<char>,
) -> Seq<(Seq<char>, Seq<char>)> {
    recent(history.push((role, content)), HISTORY_MESSAGES as nat)
}

fn remember(history: &mut Vec<(String, String)>, role: &str, content: String)
    ensures
        messages(final(history)@) == remembered(messages(old(history)@), role@, content@),
{
    let ghost said = content@;
    history.push((role.to_owned(), content));
    assert(messages(history@) =~= messages(old(history)@).push((role@, said)));
    keep_recent_history(history, HISTORY_MESSAGES);
}

// ---------------------------------------------------------------------------
// What the model is told
// ---------------------------------------------------------------------------

/// A message for the model.
pub open spec fn message_tree(message: (Seq<char>, Seq<char>)) -> JsonTree {
    json::object(
        seq![("role"@, JsonTree::Text(message.0)), ("content"@, JsonTree::Text(message.1))],
    )
}

/// The conversation for the model.
pub open spec fn input_tree(history: Seq<(Seq<char>, Seq<char>)>) -> JsonTree {
    JsonTree::Array(history.map_values(|message: (Seq<char>, Seq<char>)| message_tree(message)))
}

fn input_value(history: &[(String, String)]) -> (res: Value)
    ensures
        json::json_tree(res) == input_tree(messages(history@)),
{
    let ghost wanted = messages(history@).map_values(
        |message: (Seq<char>, Seq<char>)| message_tree(message),
    );
    let n: usize = history.len();
    let mut list: Vec<Value> = Vec::new();
    for i in 0..n
        invariant
            n == history@.len(),
            wanted == messages(history@).map_values(
                |message: (Seq<char>, Seq<char>)| message_tree(message),
            ),
            json::value_trees(list@) == wanted.take(i as int),
    {
        let mut entries: Vec<(String, Value)> = Vec::new();
        entries.push(json::text_entry("role", history[i].0.as_str()));
        entries.push(json::text_entry("content", history[i].1.as_str()));
        assert(json::entry_trees(entries@) =~= seq![
            ("role"@, JsonTree::Text(history@[i as int].0@)),
            ("content"@, JsonTree::Text(history@[i as int].1@)),
        ]);
        let ghost old_list = list@;
        let value = json::object_value(entries);
        list.push(value);
        assert(json::value_trees(list@) =~= json::value_trees(old_list).push(
            json::json_tree(value),
        ));
        assert(wanted.take(i + 1) =~= wanted.take(i as int).push(wanted[i as int]));
    }
    assert(wanted.take(n as int) =~= wanted);
    json::array_value(list)
}

/// The backlog that a reply is measured against: the high water, or the soft
/// limit where that is lower.
pub open spec fn assumed_backlog(state: AppState) -> u64 {
    if state.backlog_high_water_ms <= state.soft_audio_limit_ms {
        state.backlog_high_water_ms
    } else {
        state.soft_audio_limit_ms
    }
}

/// What the model is told to do: how to reply, and who it is.
pub open spec fn text_instructions(state: AppState) -> Seq<char> {
    response_policy::budget_instructions(
        state.response_instructions@,
        response_policy::budget_mode(
            assumed_backlog(state),
            state.backlog_low_water_ms,
            state.backlog_high_water_ms,
        ),
        0,
    ).push('\n') + state.persona_instructions@
}

/// The demand for a reply to a conversation.
pub open spec fn text_request_tree(
    state: AppState,
    history: Seq<(Seq<char>, Seq<char>)>,
) -> JsonTree {
    json::object(
        seq![
            ("model"@, JsonTree::Text(state.openai_text_model@)),
            ("instructions"@, JsonTree::Text(text_instructions(state))),
            ("input"@, input_tree(history)),
            (
                "max_output_tokens"@,
                JsonTree::Unsigned(
                    response_policy::budget_tokens(
                        state.max_response_tokens,
                        assumed_backlog(state),
                        state.backlog_low_water_ms,
                        state.backlog_high_water_ms,
                    ) as u64,
                ),
            ),
            ("stream"@, JsonTree::Bool(true)),
        ],
    )
}

/// The demand for a reply to a conversation.
pub fn text_request(state: &AppState, history: &[(String, String)]) -> (res: Value)
    ensures
        json::json_tree(res) == text_request_tree(*state, messages(history@)),
{
    let backlog_ms: u64 = if state.backlog_high_water_ms <= state.soft_audio_limit_ms {
        state.backlog_high_water_ms
    } else {
        state.soft_audio_limit_ms
    };
    let budget = response_policy::response_budget(
        state.max_response_tokens,
        backlog_ms,
        state.backlog_low_water_ms,
        state.backlog_high_water_ms,
    );
    let max_tokens: u32 = budget.max_tokens;
    let mut instructions = response_policy::response_instructions_for_budget(
        state.response_instructions.as_str(),
        budget,
        0,
    );
    instructions.push('\n');
    instructions.append(state.persona_instructions.as_str());
    let mut entries: Vec<(String, Value)> = Vec::new();
    entries.push(json::text_entry("model", state.openai_text_model.as_str()));
    entries.push(json::text_entry("instructions", instructions.as_str()));
    entries.push(json::entry("input", input_value(history)));
    entries.push(json::unsigned_entry("max_output_tokens", max_tokens as u64));
    entries.push(json::flag_entry("stream", true));
    assert(json::entry_trees(entries@) =~= seq![
        ("model"@, JsonTree::Text(state.openai_text_model@)),
        ("instructions"@, JsonTree::Text(text_instructions(*state))),
        ("input"@, input_tree(messages(history@))),
        ("max_output_tokens"@, JsonTree::Unsigned(max_tokens as u64)),
        ("stream"@, JsonTree::Bool(true)),
    ]);
    json::object_value(entries)
}

// ---------------------------------------------------------------------------
// What is made of a reply
// ---------------------------------------------------------------------------

/// Punctuation that a reply cannot end with.
pub open spec fn is_loose(c: char) -> bool {
    c == ',' || c == ';' || c == ':'
}

pub open spec fn loose() -> spec_fn(char) -> bool {
    |c: char| is_loose(c)
}

/// The end of a sentence.
pub open spec fn ends_sentence(s: Seq<char>) -> bool {
    text::ends_with_char(s, '?') || text::ends_with_char(s, '.') || text::ends_with_char(s, '!')
}

/// A reply that was cut short, as a sentence.
pub open spec fn closed_off(s: Seq<char>) -> Seq<char> {
    let cut = text::trim_back(s, loose());
    if ends_sentence(cut) {
        cut
    } else {
        cut.push('.')
    }
}

/// A reply for the voice: its words with single spaces, the first ten of them
/// as a sentence where there are more.
pub open spec fn voice_response(s: Seq<char>) -> Seq<char> {
    let words = text::words(s);
    if words.len() > 10 {
        closed_off(text::join(words.take(10), " "@))
    } else {
        text::join(words, " "@)
    }
}

fn close_off(s: String) -> (res: String)
    ensures
        res@ == closed_off(s@),
{
    let chars = text::chars_of(s.as_str());
    let n: usize = chars.len();
    let mut b: usize = n;
    while b > 0 && (chars[b - 1] == ',' || chars[b - 1] == ';' || chars[b - 1] == ':')
        invariant
            b <= n,
            n == chars@.len(),
            forall|i: int| b <= i < n ==> #[trigger] is_loose(chars@[i]),
        decreases b,
    {
        b -= 1;
    }
    proof {
        assert forall|i: int| b <= i < n implies #[trigger] loose()(chars@[i]) by {
            assert(is_loose(chars@[i]));
        }
        text::lemma_trim_back_at(chars@, loose(), b as int);
    }
    let mut cut = text::text_of(text::copy_range(chars.as_slice(), 0, b).as_slice());
    assert(cut@ =~= chars@.take(b as int));
    let whole = text::ends_with(cut.as_str(), '?') || text::ends_with(cut.as_str(), '.')
        || text::ends_with(cut.as_str(), '!');
    if !whole {
        cut.push('.');
    }
    cut
}

/// A reply for the voice.
pub fn trim_voice_response(text: &str) -> (res: String)
    ensures
        res@ == voice_response(text@),
{
    let mut words = text::split_whitespace(text);
    let n: usize = words.len();
    assert(text::texts(words@).len() == n);
    if n > 10 {
        words.truncate(10);
        assert(text::texts(words@) =~= text::words(text@).take(10));
        close_off(text::join_texts(words.as_slice(), " "))
    } else {
        text::join_texts(words.as_slice(), " ")
    }
}

// ---------------------------------------------------------------------------
// Turns
// ---------------------------------------------------------------------------

/// Answers the turns of the caller, each at most once.
pub struct TextWorker {
    /// The last turn that was answered.
    pub answered_user_generation: u64,
    /// The last messages of the conversation.
    pub history: Vec<(String, String)>,
}

/// Which turn was answered last, and the last messages of the conversation.
pub ghost struct Answers {
    pub answered: u64,
    pub history: Seq<(Seq<char>, Seq<char>)>,
}

impl View for TextWorker {
    type V = Answers;

    open spec fn view(&self) -> Answers {
        Answers { answered: self.answered_user_generation, history: messages(self.history@) }
    }
}

/// A new reply is under way, and nothing of the one before is left.
pub open spec fn replying(s: Signals) -> Signals {
    Signals {
        pending_playback_marks: 0,
        response_active: true,
        ..s.without_audio().next_generation()
    }
}

/// What the caller has said and was not looked at yet.
pub open spec fn utterances(pending: Seq<UserUtterance>) -> Seq<Utterance> {
    pending.map_values(|utterance: UserUtterance| utterance@)
}

impl Answers {
    /// A turn was not answered.
    pub open spec fn unanswered(self, user_generation: u64) -> bool {
        user_generation > self.answered
    }

    /// A turn is answered, with what was said in it.
    pub open spec fn answering(self, user_generation: u64, text: Seq<char>) -> Answers {
        Answers {
            answered: user_generation,
            history: remembered(self.history, "user"@, text),
        }
    }

    /// The turn that is asked for when this was said: that of the latest
    /// utterance, unless it was answered before.
    pub open spec fn asks(self, pending: Seq<Utterance>) -> Option<u64> {
        if pending.len() > 0 && self.unanswered(pending.last().user_generation) {
            Some(pending.last().user_generation)
        } else {
            None
        }
    }

    /// The answers when this was said.
    pub open spec fn with_said(self, pending: Seq<Utterance>) -> Answers {
        match self.asks(pending) {
            Some(user_generation) => self.answering(user_generation, pending.last().text),
            None => self,
        }
    }

    /// The answers when a reply has come, or has failed.
    pub open spec fn with_reply(self, response: Option<Seq<char>>, tone: ToneProfile) -> Answers {
        match reply_said(response, tone) {
            Some(said) => Answers {
                history: remembered(self.history, "assistant"@, said),
                ..self
            },
            None => self,
        }
    }
}

/// The rest of a turn of the agent.
pub struct TurnEnd {
    /// What the agent says, for the record.
    pub said: Option<String>,
    /// What the agent is to say aloud.
    pub speak: Option<String>,
}

/// What is said in reply, in the voice of a tone.
pub open spec fn said_aloud(response: Seq<char>, tone: ToneProfile) -> Option<Seq<char>> {
    if voice_response(response).len() == 0 {
        None
    } else {
        Some(humanize::speech_of_response(voice_response(response), tone).text)
    }
}

/// What is said in reply, if a reply has come.
pub open spec fn reply_said(response: Option<Seq<char>>, tone: ToneProfile) -> Option<Seq<char>> {
    match response {
        Some(response) => said_aloud(response, tone),
        None => None,
    }
}

/// The signals when a reply has come, or has failed: without anything to say
/// the reply is over, and with it the first audio is waited for, unless another
/// reply was begun meanwhile.
pub open spec fn after_reply(
    s: Signals,
    said: Option<Seq<char>>,
    generation: u64,
    now_ms: u64,
) -> Signals {
    if said is None {
        Signals { response_active: false, ..s }
    } else if generation == s.response_generation {
        Signals { response_requested_at: Some((generation, now_ms)), ..s }
    } else {
        s
    }
}

impl TextWorker {
    /// Nothing was said.
    pub fn new() -> (res: Self)
        ensures
            res@ == (Answers { answered: 0, history: Seq::empty() }),
    {
        let res = TextWorker { answered_user_generation: 0, history: Vec::new() };
        assert(messages(res.history@) =~= Seq::<(Seq<char>, Seq<char>)>::empty());
        res
    }

    /// Takes what the caller has said and was not looked at yet: the latest
    /// utterance is answered, unless its turn was answered before. Returns the
    /// number of the reply that is to be asked for.
    pub fn begin_turn(
        &mut self,
        pending: Vec<UserUtterance>,
        signals: &mut RealtimeSignals,
    ) -> (res: Option<u64>)
        requires
            old(self)@.asks(utterances(pending@)) is Some ==> old(signals).response_generation
                < u64::MAX,
        ensures
            final(self)@ == old(self)@.with_said(utterances(pending@)),
            match old(self)@.asks(utterances(pending@)) {
                Some(_) => {
                    &&& res == Some((old(signals).response_generation + 1) as u64)
                    &&& final(signals)@ == replying(old(signals)@)
                },
                None => res is None && final(signals)@ == old(signals)@,
            },
    {
        let ghost all = utterances(pending@);
        let mut pending = pending;
        assert(all.len() > 0 ==> all.last() == pending@.last()@);
        let latest = match pending.pop() {
            Some(latest) => latest,
            None => {
                return None;
            },
        };
        if latest.user_generation <= self.answered_user_generation {
            return None;
        }
        self.answered_user_generation = latest.user_generation;
        let generation: u64 = signals.response_generation + 1;
        signals.response_generation = generation;
        signals.reset_audio();
        signals.pending_playback_marks = 0;
        signals.response_active = true;
        remember(&mut self.history, "user", latest.text);
        Some(generation)
    }

    /// The reply to a turn has come, or has failed. A reply is recorded; it is
    /// said aloud unless another was begun meanwhile.
    pub fn end_turn(
        &mut self,
        response: Option<String>,
        generation: u64,
        tone: ToneProfile,
        signals: &mut RealtimeSignals,
        now_ms: u64,
    ) -> (res: TurnEnd)
        ensures
            ({
                let said = reply_said(text::text_view(response), tone);
                &&& text::text_view(res.said) == said
                &&& text::text_view(res.speak) == if generation == old(
                    signals,
                ).response_generation {
                    said
                } else {
                    None
                }
                &&& final(self)@ == old(self)@.with_reply(text::text_view(response), tone)
                &&& final(signals)@ == after_reply(old(signals)@, said, generation, now_ms)
            }),
            res.speak matches Some(aloud) ==> aloud@.len() > 0,
    {
        proof {
            if response is Some {
                law_something_is_said(response->0@, tone);
            }
        }
        let response = match response {
            Some(response) => trim_voice_response(response.as_str()),
            None => {
                signals.response_active = false;
                return TurnEnd { said: None, speak: None };
            },
        };
        if response.as_str().is_empty() {
            signals.response_active = false;
            return TurnEnd { said: None, speak: None };
        }
        let said = HumanizedSpeech::from_response(response.as_str(), tone).text;
        remember(&mut self.history, "assistant", said.clone());
        if generation != signals.response_generation {
            return TurnEnd { said: Some(said), speak: None };
        }
        signals.response_requested_at = Some((generation, now_ms));
        TurnEnd { said: Some(said.clone()), speak: Some(said) }
    }
}

// ---------------------------------------------------------------------------
// Laws
// ---------------------------------------------------------------------------

/// A reply for the voice has at most ten words, and none only where the reply
/// had none.
pub proof fn law_voice_response_is_short(s: Seq<char>)
    ensures
        text::words(voice_response(s)).len() <= 10,
        voice_response(s).len() == 0 <==> text::words(s).len() == 0,
{
    let words = text::words(s);
    text::lemma_words_are_words(s);
    if words.len() > 10 {
        let first = words.take(10);
        let whole = text::join(first, " "@);
        assert forall|k: int| 0 <= k < first.len() implies text::is_word(#[trigger] first[k]) by {
            assert(text::is_word(words[k]));
        }
        text::lemma_words_of_join(first);
        let cut = text::trim_back(whole, loose());
        text::lemma_trim_back(whole, loose());
        let n = cut.len() as int;
        text::lemma_word_count_grows(whole, n);
        assert(cut == whole.take(n));
        if !ends_sentence(cut) {
            text::lemma_word_count_push(cut, '.');
            if n < whole.len() {
                assert(loose()(whole[n]));
                assert(whole.take(n + 1) =~= cut.push(whole[n]));
                text::lemma_word_count_push(cut, whole[n]);
                text::lemma_word_count_grows(whole, n + 1);
            } else {
                lemma_join_ends_with_word(first);
                assert(cut =~= whole);
            }
        }
    } else {
        text::lemma_words_of_join(words);
        if words.len() > 0 {
            lemma_join_ends_with_word(words);
        }
    }
}

proof fn lemma_join_ends_with_word(list: Seq<Seq<char>>)
    requires
        list.len() > 0,
        forall|k: int| 0 <= k < list.len() ==> text::is_word(#[trigger] list[k]),
    ensures
        text::join(list, " "@).len() > 0,
        !text::is_white(text::join(list, " "@).last()),
{
    let last = list[list.len() - 1];
    assert(text::is_word(last));
    assert(text::join(list, " "@).last() == last[last.len() - 1]);
}

/// A reply that was cut for the voice is not cut again.
pub proof fn law_voice_response_is_final(s: Seq<char>)
    ensures
        voice_response(voice_response(s)) == voice_response(s),
{
    law_voice_response_is_short(s);
    let words = text::words(s);
    text::lemma_words_are_words(s);
    let said = voice_response(s);
    if words.len() > 10 {
        let first = words.take(10);
        let whole = text::join(first, " "@);
        assert forall|k: int| 0 <= k < first.len() implies text::is_word(#[trigger] first[k]) by {
            assert(text::is_word(words[k]));
        }
        let cut = text::trim_back(whole, loose());
        text::lemma_trim_back(whole, loose());
        let (list, open) = lemma_front_of_join(first, cut.len() as int);
        let tidy = if ends_sentence(cut) {
            list
        } else {
            lemma_join_with_stop(list, open)
        };
        assert(text::join(tidy, " "@) == said) by {
            reveal_strlit(" ");
        }
        text::lemma_words_of_join(tidy);
    } else {
        text::lemma_words_of_join(words);
    }
}

/// All of these are words.
spec fn all_words(list: Seq<Seq<char>>) -> bool {
    forall|k: int| 0 <= k < list.len() ==> text::is_word(#[trigger] list[k])
}

/// A part of joined words from their start is joined words itself, with a space
/// behind them or none.
proof fn lemma_front_of_join(list: Seq<Seq<char>>, n: int) -> (res: (Seq<Seq<char>>, bool))
    requires
        all_words(list),
        0 <= n <= text::join(list, " "@).len(),
    ensures
        all_words(res.0),
        text::join(list, " "@).take(n) == if res.1 {
            text::join(res.0, " "@) + " "@
        } else {
            text::join(res.0, " "@)
        },
        res.1 ==> res.0.len() > 0,
    decreases list.len(),
{
    reveal_strlit(" ");
    let whole = text::join(list, " "@);
    let none = Seq::<Seq<char>>::empty();
    if n == 0 || list.len() == 0 {
        assert(whole.take(n) =~= text::join(none, " "@));
        (none, false)
    } else {
        let last = list.last();
        assert(text::is_word(list[list.len() - 1]));
        let front = list.drop_last();
        assert forall|k: int| 0 <= k < front.len() implies text::is_word(#[trigger] front[k]) by {
            assert(text::is_word(list[k]));
        }
        let before = text::join(front, " "@);
        if list.len() == 1 {
            let part = seq![last.take(n)];
            assert(whole.take(n) =~= last.take(n));
            lemma_front_of_word(last, n);
            (part, false)
        } else if n <= before.len() {
            assert(whole.take(n) =~= before.take(n));
            lemma_front_of_join(front, n)
        } else if n == before.len() + 1 {
            assert(whole.take(n) =~= before + " "@);
            (front, true)
        } else {
            let m = n - before.len() - 1;
            let part = front.push(last.take(m));
            lemma_front_of_word(last, m);
            assert(part.drop_last() =~= front);
            assert(whole.take(n) =~= before + " "@ + last.take(m));
            assert forall|k: int| 0 <= k < part.len() implies text::is_word(
                #[trigger] part[k],
            ) by {
                if k < front.len() {
                    assert(text::is_word(front[k]));
                }
            }
            (part, false)
        }
    }
}

proof fn lemma_front_of_word(word: Seq<char>, n: int)
    requires
        text::is_word(word),
        1 <= n <= word.len(),
    ensures
        text::is_word(word.take(n)),
{
    let part = word.take(n);
    assert forall|i: int| 0 <= i < part.len() implies !text::is_white(#[trigger] part[i]) by {
        assert(!text::is_white(word[i]));
    }
}

/// Joined words with a full stop behind them are joined words.
proof fn lemma_join_with_stop(list: Seq<Seq<char>>, open: bool) -> (res: Seq<Seq<char>>)
    requires
        all_words(list),
        open ==> list.len() > 0,
    ensures
        all_words(res),
        text::join(res, " "@) == if open {
            (text::join(list, " "@) + " "@).push('.')
        } else {
            text::join(list, " "@).push('.')
        },
{
    let stop = seq!['.'];
    assert(text::is_word(stop));
    if open {
        let longer = list.push(stop);
        assert(longer.drop_last() =~= list);
        assert(text::join(longer, " "@) =~= (text::join(list, " "@) + " "@).push('.'));
        assert forall|k: int| 0 <= k < longer.len() implies text::is_word(#[trigger] longer[k]) by {
            if k < list.len() {
                assert(text::is_word(list[k]));
            }
        }
        longer
    } else if list.len() == 0 {
        assert(text::join(seq![stop], " "@) =~= text::join(list, " "@).push('.'));
        seq![stop]
    } else {
        let front = list.drop_last();
        let last = list[list.len() - 1];
        assert(text::is_word(last));
        let longer = front.push(last.push('.'));
        assert(longer.drop_last() =~= front);
        assert forall|i: int| 0 <= i < last.push('.').len() implies !text::is_white(
            #[trigger] last.push('.')[i],
        ) by {
            if i < last.len() {
                assert(!text::is_white(last[i]));
            }
        }
        assert forall|k: int| 0 <= k < longer.len() implies text::is_word(#[trigger] longer[k]) by {
            if k < front.len() {
                assert(text::is_word(list[k]));
            }
        }
        assert(text::join(longer, " "@) =~= text::join(list, " "@).push('.'));
        longer
    }
}

/// The model is told the last ten messages at most, the newest among them, in
/// the order in which they were said.
pub proof fn law_history_is_recent(
    history: Seq<(Seq<char>, Seq<char>)>,
    role: Seq<char>,
    content: Seq<char>,
)
    ensures
        remembered(history, role, content).len() <= HISTORY_MESSAGES,
        remembered(history, role, content).len() > 0,
        remembered(history, role, content).last() == (role, content),
        remembered(history, role, content).is_suffix_of(history.push((role, content))),
{
    let all = history.push((role, content));
    let kept = remembered(history, role, content);
    assert(kept =~= all.skip(all.len() - kept.len()));
    assert(kept =~= all.subrange(all.len() - kept.len(), all.len() as int));
}

/// What is said aloud is never empty, and something is said exactly where the
/// reply has a word.
pub proof fn law_something_is_said(response: Seq<char>, tone: ToneProfile)
    ensures
        said_aloud(response, tone) matches Some(said) ==> said.len() > 0,
        said_aloud(response, tone) is Some <==> text::words(response).len() > 0,
{
    law_voice_response_is_short(response);
    let raw = voice_response(response);
    if raw.len() > 0 {
        lemma_voice_response_has_a_word(response);
        let words = text::words(raw);
        text::lemma_words_are_words(raw);
        lemma_join_ends_with_word(words);
        let kept = humanize::normalized(raw);
        assert(kept.len() > 0);
        reveal_strlit(", ");
    }
}

/// A text that ends with a character that is no white space has a word.
proof fn lemma_last_word(s: Seq<char>)
    requires
        s.len() > 0,
        !text::is_white(s.last()),
    ensures
        text::words(s).len() > 0,
    decreases s.len(),
{
    let front = s.drop_last();
    assert(front.push(s.last()) =~= s);
    text::lemma_word_count_push(front, s.last());
    if front.len() > 0 && !text::is_white(front.last()) {
        lemma_last_word(front);
    }
}

proof fn lemma_voice_response_has_a_word(s: Seq<char>)
    requires
        text::words(s).len() > 0,
    ensures
        text::words(voice_response(s)).len() > 0,
{
    let words = text::words(s);
    text::lemma_words_are_words(s);
    if words.len() > 10 {
        let said = voice_response(s);
        assert(ends_sentence(said));
        lemma_last_word(said);
    } else {
        text::lemma_words_of_join(words);
    }
}

/// Something that happens to the worker: the caller has said something, or a
/// reply has come or failed.
pub ghost enum Happening {
    Said { pending: Seq<Utterance> },
    Replied { response: Option<Seq<char>>, tone: ToneProfile },
}

impl Answers {
    /// The answers after something has happened.
    pub open spec fn with(self, happening: Happening) -> Answers {
        match happening {
            Happening::Said { pending } => self.with_said(pending),
            Happening::Replied { response, tone } => self.with_reply(response, tone),
        }
    }

    /// The answers after all of this has happened in order.
    pub open spec fn with_all(self, story: Seq<Happening>) -> Answers
        decreases story.len(),
    {
        if story.len() == 0 {
            self
        } else {
            self.with_all(story.drop_last()).with(story.last())
        }
    }

    /// The turns that are asked for while all of this happens, in order.
    pub open spec fn asked_for(self, story: Seq<Happening>) -> Seq<u64>
        decreases story.len(),
    {
        if story.len() == 0 {
            Seq::empty()
        } else {
            let before = self.asked_for(story.drop_last());
            match story.last() {
                Happening::Said { pending } => match self.with_all(story.drop_last()).asks(
                    pending,
                ) {
                    Some(user_generation) => before.push(user_generation),
                    None => before,
                },
                Happening::Replied { .. } => before,
            }
        }
    }
}

/// Whatever is said and whatever the replies, the turns that are asked for
/// rise: none is asked for twice, in advance or at its end, and none after a
/// later one. The last of them is the last that counts as answered.
pub proof fn law_turns_asked_for_rise(answers: Answers, story: Seq<Happening>)
    ensures
        ({
            let turns = answers.asked_for(story);
            &&& forall|i: int, j: int| 0 <= i < j < turns.len() ==> turns[i] < turns[j]
            &&& forall|i: int|
                0 <= i < turns.len() ==> answers.answered < #[trigger] turns[i]
            &&& answers.with_all(story).answered == if turns.len() > 0 {
                turns.last()
            } else {
                answers.answered
            }
        }),
    decreases story.len(),
{
    if story.len() > 0 {
        law_turns_asked_for_rise(answers, story.drop_last());
    }
}

/// A turn that was answered, and any before it, is not asked for again.
pub proof fn law_turn_is_answered_once(
    answers: Answers,
    user_generation: u64,
    text: Seq<char>,
    other: u64,
)
    requires
        other <= user_generation,
    ensures
        !answers.answering(user_generation, text).unanswered(other),
{
}

/// A reply is said aloud only while it may be heard. One that has failed or
/// holds no word is not said, and leaves no reply under way.
pub proof fn law_late_replies_are_not_awaited(
    s: Signals,
    response: Option<Seq<char>>,
    tone: ToneProfile,
    generation: u64,
    now_ms: u64,
)
    ensures
        ({
            let said = reply_said(response, tone);
            let after = after_reply(s, said, generation, now_ms);
            &&& said is None ==> !after.response_active && after.response_requested_at
                == s.response_requested_at
            &&& said is Some && generation != s.response_generation ==> after == s
            &&& said is Some && generation == s.response_generation ==> after.awaits(generation)
        }),
{
}

/// A new reply makes all audio of the one before stale, and leaves none of it
/// in the counts.
pub proof fn law_new_reply_starts_clean(s: Signals)
    ensures
        replying(s).response_generation != s.response_generation,
        replying(s).pending_playback_marks == 0,
        replying(s).generated_audio_ms == 0,
        replying(s).queued_audio_ms == 0,
        replying(s).played_audio_ms == 0,
{
}

/// One more message makes the history longer by one until it holds ten, and
/// from then on keeps it at ten: nothing is dropped while there are at most ten
/// messages, and beyond that only the oldest are. Each message that is kept is
/// the one that was said.
pub proof fn law_ten_messages_are_remembered(
    history: Seq<(Seq<char>, Seq<char>)>,
    role: Seq<char>,
    content: Seq<char>,
)
    ensures
        ({
            let kept = remembered(history, role, content);
            &&& history.len() <= 9 ==> kept == history.push((role, content))
            &&& history.len() >= 9 ==> kept.len() == 10
            &&& kept.last() == (role, content)
            &&& forall|k: int|
                #![trigger kept[kept.len() - 1 - k]]
                1 <= k <= 9 && k <= history.len() ==> kept[kept.len() - 1 - k]
                    == history[history.len() - k]
        }),
{
    let kept = remembered(history, role, content);
    let all = history.push((role, content));
    assert forall|k: int|
        #![trigger kept[kept.len() - 1 - k]]
        1 <= k <= 9 && k <= history.len() implies kept[kept.len() - 1 - k] == history[history.len()
        - k] by {
        assert(kept[kept.len() - 1 - k] == all[all.len() - 1 - k]);
    }
}

/// Of any limit the history keeps as many messages as it allows, or all where
/// there are no more: they are the newest, in their order.
pub proof fn law_recent_messages_are_kept(history: Seq<(Seq<char>, Seq<char>)>, max: nat, i: int)
    ensures
        history.len() <= max ==> recent(history, max) == history,
        history.len() > max ==> recent(history, max).len() == max,
        0 <= i < recent(history, max).len() ==> recent(history, max)[i] == history[history.len()
            - recent(history, max).len() + i],
{
}

/// What the caller says last is put to the model, as the caller's, if its turn
/// is later than all that were answered, however much was said before it and
/// whatever the history holds; nothing else that is said changes anything.
pub proof fn law_latest_turn_is_asked_for(
    answers: Answers,
    earlier: Seq<Utterance>,
    latest: Utterance,
)
    ensures
        ({
            let pending = earlier.push(latest);
            let after = answers.with_said(pending);
            &&& latest.user_generation > answers.answered ==> {
                &&& answers.asks(pending) == Some(latest.user_generation)
                &&& after.answered == latest.user_generation
                &&& after.history.len() > 0
                &&& after.history.last() == ("user"@, latest.text)
                &&& after.history.len() == if answers.history.len() < 10 {
                    answers.history.len() + 1
                } else {
                    10
                }
            }
            &&& latest.user_generation <= answers.answered ==> {
                &&& answers.asks(pending) is None
                &&& after == answers
            }
            &&& answers.asks(Seq::<Utterance>::empty()) is None
            &&& answers.with_said(Seq::<Utterance>::empty()) == answers
        }),
{
}

/// A reply that has a word is remembered as the agent's, in the words in which
/// it is said; one without a word, and one that failed, change nothing. No reply
/// changes which turns were answered.
pub proof fn law_reply_is_remembered(
    answers: Answers,
    response: Option<Seq<char>>,
    tone: ToneProfile,
)
    ensures
        ({
            let after = answers.with_reply(response, tone);
            let said = reply_said(response, tone);
            &&& after.answered == answers.answered
            &&& said is Some <==> response is Some && text::words(response->0).len() > 0
            &&& said is None ==> after == answers
            &&& said is Some ==> {
                &&& after.history.len() > 0
                &&& after.history.last() == ("assistant"@, said->0)
                &&& after.history.len() == if answers.history.len() < 10 {
                    answers.history.len() + 1
                } else {
                    10
                }
            }
        }),
{
    if response is Some {
        law_something_is_said(response->0, tone);
    }
}

/// When a reply is begun it is under way under the next number, nothing of it
/// was made, queued, played or marked, and nothing else changes: whether the
/// agent is heard, what is waited for and what the caller said.
pub proof fn law_reply_is_begun(s: Signals)
    requires
        s.response_generation < u64::MAX,
    ensures
        ({
            let after = replying(s);
            &&& after.response_active
            &&& after.response_generation == s.response_generation + 1
            &&& after.pending_playback_marks == 0
            &&& after.generated_audio_ms == 0
            &&& after.played_audio_ms == 0
            &&& after.queued_audio_ms == 0
            &&& after.assistant_speaking == s.assistant_speaking
            &&& after.interrupted == s.interrupted
            &&& after.active_response_id == s.active_response_id
            &&& after.response_requested_at == s.response_requested_at
            &&& after.user_speech_generation == s.user_speech_generation
            &&& after.current_turn_speech_ms == s.current_turn_speech_ms
            &&& after.openai_speech_started_ms == s.openai_speech_started_ms
        }),
{
}

/// When a reply has come with something to say, its first audio is waited for
/// from now on, if its number is still that of the reply that may be heard;
/// otherwise nothing changes. Without anything to say no reply is under way, and
/// nothing else changes, whatever its number.
pub proof fn law_reply_is_awaited(
    s: Signals,
    said: Option<Seq<char>>,
    generation: u64,
    now_ms: u64,
)
    ensures
        ({
            let after = after_reply(s, said, generation, now_ms);
            &&& said is None ==> after == (Signals { response_active: false, ..s })
            &&& said is Some && generation == s.response_generation ==> after == (Signals {
                response_requested_at: Some((generation, now_ms)),
                ..s
            })
            &&& said is Some && generation != s.response_generation ==> after == s
        }),
{
}

/// A reply of at most ten words is said with its words as they are, with one
/// space between them. Of a longer one the first ten words are said, but for the
/// commas, semicolons and colons at their end; a full stop follows, unless a mark
/// that ends a sentence stands there.
pub proof fn law_voice_response_keeps_words(s: Seq<char>, kept: Seq<char>, loose_end: Seq<char>)
    requires
        text::words(s).len() > 10 ==> text::join(text::words(s).take(10), " "@) == kept + loose_end,
        forall|i: int|
            0 <= i < loose_end.len() ==> #[trigger] loose_end[i] == ',' || loose_end[i] == ';'
                || loose_end[i] == ':',
        kept.len() > 0 ==> kept.last() != ',' && kept.last() != ';' && kept.last() != ':',
    ensures
        text::words(s).len() <= 10 ==> voice_response(s) == text::join(text::words(s), " "@),
        text::words(s).len() > 10 ==> voice_response(s) == if kept.len() > 0 && (kept.last() == '.'
            || kept.last() == '?' || kept.last() == '!') {
            kept
        } else {
            kept.push('.')
        },
{
    if text::words(s).len() > 10 {
        let ten = text::join(text::words(s).take(10), " "@);
        let n = kept.len() as int;
        assert forall|i: int| n <= i < ten.len() implies #[trigger] loose()(ten[i]) by {
            assert(ten[i] == loose_end[i - n]);
        }
        text::lemma_trim_back_at(ten, loose(), n);
        assert(ten.take(n) =~= kept);
    }
}

/// A reply is asked for as if as much audio waited as the high mark says or the
/// soft limit, whichever is less.
pub proof fn law_assumed_backlog(state: AppState)
    ensures
        assumed_backlog(state) <= state.backlog_high_water_ms,
        assumed_backlog(state) <= state.soft_audio_limit_ms,
        assumed_backlog(state) == state.backlog_high_water_ms || assumed_backlog(state)
            == state.soft_audio_limit_ms,
{
}

/// The model is told the instructions of a reply, with the words that the assumed
/// backlog leaves and a backlog of nought, and in the line behind them those of the
/// persona, each as it is set.
pub proof fn law_instructions_are_told(state: AppState)
    ensures
        ({
            let told = text_instructions(state);
            let base = state.response_instructions@;
            let persona = state.persona_instructions@;
            let n = told.len() - persona.len();
            &&& n > base.len()
            &&& told.take(base.len() as int) == base
            &&& told[n - 1] == '\n'
            &&& told.skip(n) == persona
            &&& told.take(n - 1) == response_policy::budget_instructions(
                base,
                if assumed_backlog(state) >= state.backlog_high_water_ms {
                    "very_low"@
                } else if assumed_backlog(state) >= state.backlog_low_water_ms {
                    "low"@
                } else {
                    "normal"@
                },
                0,
            )
        }),
{
    let told = text_instructions(state);
    let base = state.response_instructions@;
    let persona = state.persona_instructions@;
    let n = told.len() - persona.len();
    assert(told.skip(n) =~= persona);
    assert(told.take(base.len() as int) =~= base);
    assert(told.take(n - 1) =~= response_policy::budget_instructions(
        base,
        response_policy::budget_mode(
            assumed_backlog(state),
            state.backlog_low_water_ms,
            state.backlog_high_water_ms,
        ),
        0,
    ));
}

/// The demand for a reply can be read back: the model, every message of the
/// history in its order with who said it and what, the limit that the backlog
/// leaves, and that the reply is to come piece by piece.
pub proof fn law_reply_is_asked_for(
    state: AppState,
    history: Seq<(Seq<char>, Seq<char>)>,
    i: int,
)
    ensures
        ({
            let tree = text_request_tree(state, history);
            let tokens = tree.unsigned_at("max_output_tokens"@);
            let backlog = assumed_backlog(state);
            &&& tree.text_at("model"@) == Some(state.openai_text_model@)
            &&& tree.text_at("instructions"@) == Some(text_instructions(state))
            &&& tree.flag_at("stream"@) == Some(true)
            &&& tokens is Some
            &&& backlog >= state.backlog_high_water_ms ==> tokens->0 == if state.max_response_tokens
                < 24 {
                state.max_response_tokens as u64
            } else {
                24
            }
            &&& state.backlog_low_water_ms <= backlog < state.backlog_high_water_ms ==> tokens->0
                == if state.max_response_tokens < 40 {
                state.max_response_tokens as u64
            } else {
                40
            }
            &&& backlog < state.backlog_low_water_ms && backlog < state.backlog_high_water_ms
                ==> tokens->0 == state.max_response_tokens
            &&& tree.member("input"@) matches Some(list) && {
                &&& 0 <= i < history.len() ==> (list.element(i) matches Some(message)
                    && message.text_at("role"@) == Some(history[i].0) && message.text_at(
                    "content"@,
                ) == Some(history[i].1))
                &&& i < 0 || i >= history.len() ==> list.element(i) is None
            }
        }),
{
    reveal_strlit("model");
    reveal_strlit("instructions");
    reveal_strlit("input");
    reveal_strlit("max_output_tokens");
    reveal_strlit("stream");
    reveal_strlit("role");
    reveal_strlit("content");
    assert("model"@.len() == 5 && "model"@[0] == 'm');
    assert("instructions"@.len() == 12);
    assert("input"@.len() == 5 && "input"@[0] == 'i');
    assert("max_output_tokens"@.len() == 17);
    assert("stream"@.len() == 6);
    assert("role"@.len() == 4);
    assert("content"@.len() == 7);
    let entries = seq![
        ("model"@, JsonTree::Text(state.openai_text_model@)),
        ("instructions"@, JsonTree::Text(text_instructions(state))),
        ("input"@, input_tree(history)),
        (
            "max_output_tokens"@,
            JsonTree::Unsigned(
                response_policy::budget_tokens(
                    state.max_response_tokens,
                    assumed_backlog(state),
                    state.backlog_low_water_ms,
                    state.backlog_high_water_ms,
                ) as u64,
            ),
        ),
        ("stream"@, JsonTree::Bool(true)),
    ];
    json::law_object_holds_its_entries(entries, 0);
    json::law_object_holds_its_entries(entries, 1);
    json::law_object_holds_its_entries(entries, 2);
    json::law_object_holds_its_entries(entries, 3);
    json::law_object_holds_its_entries(entries, 4);
    if 0 <= i < history.len() {
        let message = seq![
            ("role"@, JsonTree::Text(history[i].0)),
            ("content"@, JsonTree::Text(history[i].1)),
        ];
        json::law_object_holds_its_entries(message, 0);
        json::law_object_holds_its_entries(message, 1);
    }
}

/// The history keeps its newest messages, as many as are allowed, or all where
/// there are no more.
pub proof fn law_keep_recent_history(
    history: &mut Vec<(String, String)>,
    max_messages: usize,
    i: int,
)
    requires
        call_ensures(keep_recent_history, (history, max_messages), ()),
    ensures
        final(history)@.len() == if old(history)@.len() <= max_messages {
            old(history)@.len()
        } else {
            max_messages as nat
        },
        0 <= i < final(history)@.len() ==> {
            let j = old(history)@.len() - final(history)@.len() + i;
            &&& final(history)@[i].0@ == old(history)@[j].0@
            &&& final(history)@[i].1@ == old(history)@[j].1@
        },
{
    let before = messages(old(history)@);
    let after = messages(final(history)@);
    assert(before.len() == old(history)@.len());
    assert(after.len() == final(history)@.len());
    if 0 <= i < after.len() {
        let j = before.len() - after.len() + i;
        assert(after[i] == before[j]);
    }
}

/// The worker answers the latest of what the caller said, where its turn is later
/// than the last that was answered, whatever else it holds. It takes it into the
/// history as the caller's, where it is the newest of ten messages at most, and
/// begins a reply under the next number. Otherwise nothing changes.
pub proof fn law_begin_turn(
    worker: &mut TextWorker,
    pending: Vec<UserUtterance>,
    signals: &mut RealtimeSignals,
    res: Option<u64>,
)
    requires
        call_ensures(TextWorker::begin_turn, (worker, pending, signals), res),
        old(signals).response_generation < u64::MAX,
    ensures
        ({
            let asked = pending@.len() > 0 && pending@.last().user_generation
                > old(worker)@.answered;
            let before = old(worker)@.history;
            let after = final(worker)@.history;
            &&& asked ==> {
                &&& res == Some((old(signals).response_generation + 1) as u64)
                &&& final(worker)@.answered == pending@.last().user_generation
                &&& before.len() < 10 ==> after == before.push(("user"@, pending@.last().text@))
                &&& before.len() >= 10 ==> after.len() == 10 && after.last() == (
                    "user"@,
                    pending@.last().text@,
                )
                &&& final(signals)@ == (Signals {
                    response_generation: (old(signals).response_generation + 1) as u64,
                    response_active: true,
                    pending_playback_marks: 0,
                    generated_audio_ms: 0,
                    played_audio_ms: 0,
                    queued_audio_ms: 0,
                    ..old(signals)@
                })
            }
            &&& !asked ==> {
                &&& res is None
                &&& final(worker)@ == old(worker)@
                &&& final(signals)@ == old(signals)@
            }
        }),
{
    let all = utterances(pending@);
    assert(all.len() == pending@.len());
    if all.len() > 0 {
        assert(all.last() == pending@.last()@);
    }
}

/// A reply that has a word is recorded and taken into the history, where it is the
/// newest of ten messages at most. It is said aloud, and waited for from now on,
/// where no other reply was begun meanwhile. One that failed, and one without a
/// word, leaves no reply under way.
pub proof fn law_end_turn(
    worker: &mut TextWorker,
    response: Option<String>,
    generation: u64,
    tone: ToneProfile,
    signals: &mut RealtimeSignals,
    now_ms: u64,
    res: TurnEnd,
)
    requires
        call_ensures(
            TextWorker::end_turn,
            (worker, response, generation, tone, signals, now_ms),
            res,
        ),
    ensures
        ({
            let words = response is Some && text::words(response->0@).len() > 0;
            let current = generation == old(signals).response_generation;
            let before = old(worker)@.history;
            let after = final(worker)@.history;
            &&& final(worker)@.answered == old(worker)@.answered
            &&& words <==> res.said is Some
            &&& words && current <==> res.speak is Some
            &&& words && current ==> res.speak->0@ == res.said->0@
            &&& words && before.len() < 10 ==> after == before.push(
                ("assistant"@, res.said->0@),
            )
            &&& words && before.len() >= 10 ==> after.len() == 10 && after.last() == (
                "assistant"@,
                res.said->0@,
            )
            &&& !words ==> after == before
            &&& !words ==> final(signals)@ == (Signals { response_active: false, ..old(signals)@ })
            &&& words && current ==> final(signals)@ == (Signals {
                response_requested_at: Some((generation, now_ms)),
                ..old(signals)@
            })
            &&& words && !current ==> final(signals)@ == old(signals)@
        }),
{
    if response is Some {
        law_something_is_said(response->0@, tone);
    }
}

/// What is said of a reply is the reply cut down for the voice, and then shaped for
/// the voice: nothing else is added, left out or changed on the way.
pub proof fn law_reply_is_cut_and_shaped(response: Seq<char>, tone: ToneProfile)
    ensures
        reply_said(None, tone) is None,
        text::words(response).len() == 0 ==> reply_said(Some(response), tone) is None,
        text::words(response).len() > 0 ==> reply_said(Some(response), tone) == Some(
            humanize::speech_of_response(voice_response(response), tone).text,
        ),
{
    law_something_is_said(response, tone);
}

/// What is said of a reply of at most ten words are its words, and of a longer one
/// ten at most, ending like a sentence; something is said where there is a word.
pub proof fn law_trim_voice_response(text: &str, res: String)
    requires
        call_ensures(trim_voice_response, (text,), res),
    ensures
        text::words(text@).len() <= 10 ==> res@ == text::join(text::words(text@), " "@),
        text::words(res@).len() <= 10,
        res@.len() == 0 <==> text::words(text@).len() == 0,
        text::words(text@).len() > 10 ==> res@.last() == '.' || res@.last() == '?' || res@.last()
            == '!',
{
    law_voice_response_is_short(text@);
}

/// The demand for a reply tells the model every message of the history, in order.
pub proof fn law_text_request(
    state: &AppState,
    history: &[(String, String)],
    res: Value,
    i: int,
)
    requires
        call_ensures(text_request, (state, history), res),
        0 <= i < history@.len(),
    ensures
        json::json_tree(res).text_at("model"@) == Some(state.openai_text_model@),
        json::json_tree(res).flag_at("stream"@) == Some(true),
        json::json_tree(res).member("input"@) matches Some(list) && list.element(i) matches Some(
            message,
        ) && message.text_at("role"@) == Some(history@[i].0@) && message.text_at("content"@) == Some(
            history@[i].1@,
        ),
{
    law_reply_is_asked_for(*state, messages(history@), i);
}

} // verus!
