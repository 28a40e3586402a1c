//! How a reply is made to sound spoken: its tone, a word of acknowledgement, a
//! filler, a pause and a breath.

use crate::environment;
use crate::environment::Environment;
use crate::json;
use crate::json::JsonTree;
use crate::rng;
use crate::rng::SmallRng;
use crate::text;
use serde_json::Value;
use vstd::prelude::*;

verus! {

/// The noise behind the agent's voice.
#[derive(Clone, Copy, Debug, PartialEq, Eq, Structural)]
pub enum BackgroundProfile {
    NoBackground,
    Office,
    CoffeeCafe,
    Kitchen,
    CleaningVacuum,
    Custom,
}

/// The tone that the agent speaks in.
#[derive(Clone, Copy, Debug, PartialEq, Eq, Structural)]
pub enum ToneProfile {
    Support,
    Sales,
    Complaint,
    Escalation,
}

/// A reply as it is spoken.
pub struct HumanizedSpeech {
    pub text: String,
    pub tone: ToneProfile,
    /// Silence before the first word.
    pub initial_pause_ms: u64,
    /// Whether a breath follows the last word.
    pub breath_after_done: bool,
}

/// What a reply as it is spoken holds.
pub ghost struct Speech {
    pub text: Seq<char>,
    pub tone: ToneProfile,
    pub initial_pause_ms: int,
    pub breath_after_done: bool,
}

impl View for HumanizedSpeech {
    type V = Speech;

    open spec fn view(&self) -> Speech {
        Speech {
            text: self.text@,
            tone: self.tone,
            initial_pause_ms: self.initial_pause_ms as int,
            breath_after_done: self.breath_after_done,
        }
    }
}

// ---------------------------------------------------------------------------
// Settings
// ---------------------------------------------------------------------------

/// A setting as it is compared: trimmed and in lower case.
pub open spec fn setting(value: Seq<char>) -> Seq<char> {
    text::lower(text::trimmed(value))
}

/// The background that a setting names; anything unknown is the office.
pub open spec fn background_of(value: Seq<char>) -> BackgroundProfile {
    let name = setting(value);
    if name == "none"@ || name == "off"@ || name == "silent"@ {
        BackgroundProfile::NoBackground
    } else if name == "coffee"@ || name == "coffee_cafe"@ || name == "cafe"@ || name == "café"@ {
        BackgroundProfile::CoffeeCafe
    } else if name == "kitchen"@ {
        BackgroundProfile::Kitchen
    } else if name == "cleaning"@ || name == "vacuum"@ || name == "cleaning_vacuum"@ {
        BackgroundProfile::CleaningVacuum
    } else if name == "custom"@ {
        BackgroundProfile::Custom
    } else {
        BackgroundProfile::Office
    }
}

/// The tone that a setting names; anything unknown is support.
pub open spec fn tone_of(value: Seq<char>) -> ToneProfile {
    let name = setting(value);
    if name == "sales"@ {
        ToneProfile::Sales
    } else if name == "complaint"@ || name == "empathetic"@ {
        ToneProfile::Complaint
    } else if name == "escalation"@ || name == "serious"@ {
        ToneProfile::Escalation
    } else {
        ToneProfile::Support
    }
}

pub open spec fn background_label(profile: BackgroundProfile) -> Seq<char> {
    match profile {
        BackgroundProfile::NoBackground => "none"@,
        BackgroundProfile::Office => "office"@,
        BackgroundProfile::CoffeeCafe => "coffee_cafe"@,
        BackgroundProfile::Kitchen => "kitchen"@,
        BackgroundProfile::CleaningVacuum => "cleaning_vacuum"@,
        BackgroundProfile::Custom => "custom"@,
    }
}

pub open spec fn tone_label(tone: ToneProfile) -> Seq<char> {
    match tone {
        ToneProfile::Support => "support"@,
        ToneProfile::Sales => "sales"@,
        ToneProfile::Complaint => "complaint"@,
        ToneProfile::Escalation => "escalation"@,
    }
}

impl BackgroundProfile {
    /// The background that a setting names; anything unknown is the office.
    pub fn from_env(value: &str) -> (res: Self)
        ensures
            res == background_of(value@),
    {
        let name = text::to_ascii_lowercase(text::trim(value).as_str());
        let name = name.as_str();
        if text::same_text(name, "none") || text::same_text(name, "off") || text::same_text(
            name,
            "silent",
        ) {
            BackgroundProfile::NoBackground
        } else if text::same_text(name, "coffee") || text::same_text(name, "coffee_cafe")
            || text::same_text(name, "cafe") || text::same_text(name, "café") {
            BackgroundProfile::CoffeeCafe
        } else if text::same_text(name, "kitchen") {
            BackgroundProfile::Kitchen
        } else if text::same_text(name, "cleaning") || text::same_text(name, "vacuum")
            || text::same_text(name, "cleaning_vacuum") {
            BackgroundProfile::CleaningVacuum
        } else if text::same_text(name, "custom") {
            BackgroundProfile::Custom
        } else {
            BackgroundProfile::Office
        }
    }

    /// The name of the profile.
    pub fn label(self) -> (res: &'static str)
        ensures
            res@ == background_label(self),
    {
        match self {
            BackgroundProfile::NoBackground => "none",
            BackgroundProfile::Office => "office",
            BackgroundProfile::CoffeeCafe => "coffee_cafe",
            BackgroundProfile::Kitchen => "kitchen",
            BackgroundProfile::CleaningVacuum => "cleaning_vacuum",
            BackgroundProfile::Custom => "custom",
        }
    }
}

impl ToneProfile {
    /// The tone that a setting names; anything unknown is support.
    pub fn from_env(value: &str) -> (res: Self)
        ensures
            res == tone_of(value@),
    {
        let name = text::to_ascii_lowercase(text::trim(value).as_str());
        let name = name.as_str();
        if text::same_text(name, "sales") {
            ToneProfile::Sales
        } else if text::same_text(name, "complaint") || text::same_text(name, "empathetic") {
            ToneProfile::Complaint
        } else if text::same_text(name, "escalation") || text::same_text(name, "serious") {
            ToneProfile::Escalation
        } else {
            ToneProfile::Support
        }
    }

    /// The name of the tone.
    pub fn label(self) -> (res: &'static str)
        ensures
            res@ == tone_label(self),
    {
        match self {
            ToneProfile::Support => "support",
            ToneProfile::Sales => "sales",
            ToneProfile::Complaint => "complaint",
            ToneProfile::Escalation => "escalation",
        }
    }
}

/// How the agent is made to sound human.
pub struct HumanizationConfig {
    pub enabled: bool,
    pub background_profile: BackgroundProfile,
    pub ambience_paths: Vec<String>,
    pub breathing_paths: Vec<String>,
    pub office_fx_paths: Vec<String>,
    pub tone: ToneProfile,
}

impl HumanizationConfig {
    /// These are the settings that the variables give.
    pub open spec fn set_by(self, vars: Seq<(Seq<char>, Seq<char>)>) -> bool {
        &&& self.enabled == environment::switch_or(vars, "HUMANIZATION_ENABLED"@, true)
        &&& self.background_profile == background_of(
            environment::value_or(vars, "HUMANIZE_BACKGROUND_PROFILE"@, "office"@),
        )
        &&& text::texts(self.ambience_paths@) == environment::list_of(
            vars,
            "HUMANIZE_BACKGROUND_WAVS"@,
        )
        &&& text::texts(self.breathing_paths@) == environment::list_of(
            vars,
            "HUMANIZE_BREATH_WAVS"@,
        )
        &&& text::texts(self.office_fx_paths@) == environment::list_of(
            vars,
            "HUMANIZE_OFFICE_FX_WAVS"@,
        )
        &&& self.tone == tone_of(environment::value_or(vars, "HUMANIZE_TONE"@, "support"@))
    }

    /// The settings that the environment gives.
    pub fn from_env(env: &Environment) -> (res: Self)
        ensures
            res.set_by(env@),
    {
        HumanizationConfig {
            enabled: environment::env_bool(env, "HUMANIZATION_ENABLED", true),
            background_profile: BackgroundProfile::from_env(
                env.var_or("HUMANIZE_BACKGROUND_PROFILE", "office").as_str(),
            ),
            ambience_paths: environment::env_list(env, "HUMANIZE_BACKGROUND_WAVS"),
            breathing_paths: environment::env_list(env, "HUMANIZE_BREATH_WAVS"),
            office_fx_paths: environment::env_list(env, "HUMANIZE_OFFICE_FX_WAVS"),
            tone: ToneProfile::from_env(env.var_or("HUMANIZE_TONE", "support").as_str()),
        }
    }
}

/// What is kept of the settings with a call. The gains are those of the
/// ambience while the agent speaks and while it is silent.
pub open spec fn metrics_tree(
    config: HumanizationConfig,
    speaking_gain: JsonTree,
    silence_gain: JsonTree,
) -> JsonTree {
    json::object(
        seq![
            ("enabled"@, JsonTree::Bool(config.enabled)),
            ("tone"@, JsonTree::Text(tone_label(config.tone))),
            ("background_profile"@, JsonTree::Text(background_label(config.background_profile))),
            ("speaking_bg_gain"@, speaking_gain),
            ("silence_bg_gain"@, silence_gain),
            ("ambience_assets"@, JsonTree::Unsigned(config.ambience_paths@.len() as u64)),
            ("breath_assets"@, JsonTree::Unsigned(config.breathing_paths@.len() as u64)),
            ("office_fx_assets"@, JsonTree::Unsigned(config.office_fx_paths@.len() as u64)),
            ("ambience_configured"@, JsonTree::Bool(config.ambience_paths@.len() > 0)),
        ],
    )
}

/// What is kept of the settings with a call.
pub fn humanization_metrics(
    config: &HumanizationConfig,
    speaking_gain: Value,
    silence_gain: Value,
) -> (res: Value)
    ensures
        json::json_tree(res) == metrics_tree(
            *config,
            json::json_tree(speaking_gain),
            json::json_tree(silence_gain),
        ),
{
    let mut entries: Vec<(String, Value)> = Vec::new();
    entries.push(json::flag_entry("enabled", config.enabled));
    entries.push(json::text_entry("tone", config.tone.label()));
    entries.push(json::text_entry("background_profile", config.background_profile.label()));
    entries.push(json::entry("speaking_bg_gain", speaking_gain));
    entries.push(json::entry("silence_bg_gain", silence_gain));
    entries.push(json::unsigned_entry("ambience_assets", config.ambience_paths.len() as u64));
    entries.push(json::unsigned_entry("breath_assets", config.breathing_paths.len() as u64));
    entries.push(json::unsigned_entry("office_fx_assets", config.office_fx_paths.len() as u64));
    entries.push(json::flag_entry("ambience_configured", config.ambience_paths.len() > 0));
    assert(json::entry_trees(entries@) =~= seq![
        ("enabled"@, JsonTree::Bool(config.enabled)),
        ("tone"@, JsonTree::Text(tone_label(config.tone))),
        ("background_profile"@, JsonTree::Text(background_label(config.background_profile))),
        ("speaking_bg_gain"@, json::json_tree(speaking_gain)),
        ("silence_bg_gain"@, json::json_tree(silence_gain)),
        ("ambience_assets"@, JsonTree::Unsigned(config.ambience_paths@.len() as u64)),
        ("breath_assets"@, JsonTree::Unsigned(config.breathing_paths@.len() as u64)),
        ("office_fx_assets"@, JsonTree::Unsigned(config.office_fx_paths@.len() as u64)),
        ("ambience_configured"@, JsonTree::Bool(config.ambience_paths@.len() > 0)),
    ]);
    json::object_value(entries)
}

/// The label of a profile names the profile.
pub proof fn law_labels_name_their_profiles(profile: BackgroundProfile, tone: ToneProfile)
    ensures
        background_of(background_label(profile)) == profile,
        tone_of(tone_label(tone)) == tone,
{
    lemma_plain_settings();
    reveal_strlit("none");
    reveal_strlit("off");
    reveal_strlit("silent");
    reveal_strlit("office");
    reveal_strlit("coffee");
    reveal_strlit("coffee_cafe");
    reveal_strlit("cafe");
    reveal_strlit("café");
    reveal_strlit("kitchen");
    reveal_strlit("cleaning");
    reveal_strlit("vacuum");
    reveal_strlit("cleaning_vacuum");
    reveal_strlit("custom");
    reveal_strlit("support");
    reveal_strlit("sales");
    reveal_strlit("complaint");
    reveal_strlit("empathetic");
    reveal_strlit("escalation");
    reveal_strlit("serious");
    assert("office"@.len() == 6 && "silent"@.len() == 6 && "coffee"@.len() == 6 && "vacuum"@.len()
        == 6 && "custom"@.len() == 6);
    assert("office"@[0] != "silent"@[0] && "office"@[0] != "coffee"@[0] && "office"@[0]
        != "vacuum"@[0] && "office"@[0] != "custom"@[0]);
    assert("custom"@[0] != "silent"@[0] && "custom"@[1] != "coffee"@[1] && "custom"@[0]
        != "vacuum"@[0]);
    assert("kitchen"@.len() == 7);
    assert("none"@[0] != "cafe"@[0] && "none"@[0] != "café"@[0]);
    assert("support"@.len() == 7 && "serious"@.len() == 7 && "support"@[1] != "serious"@[1]);
    assert("complaint"@.len() == 9 && "escalation"@.len() == 10 && "empathetic"@.len() == 10
        && "escalation"@[1] != "empathetic"@[1]);
}

/// A text of characters that are neither white space nor capital letters is
/// compared as it stands.
proof fn lemma_plain_setting(s: Seq<char>)
    requires
        s.len() > 0,
        forall|i: int|
            0 <= i < s.len() ==> !text::is_white(#[trigger] s[i]) && !('A' <= s[i] <= 'Z'),
    ensures
        setting(s) == s,
{
    assert(text::trim_front(s, text::white()) == s);
    assert(!text::is_white(s[s.len() - 1]));
    assert(text::trim_back(s, text::white()) == s);
    assert(text::lower(s) =~= s);
}

proof fn lemma_plain_settings()
    ensures
        forall|profile: BackgroundProfile|
            setting(#[trigger] background_label(profile)) == background_label(profile),
        forall|tone: ToneProfile| setting(#[trigger] tone_label(tone)) == tone_label(tone),
{
    reveal_strlit("none");
    reveal_strlit("office");
    reveal_strlit("coffee_cafe");
    reveal_strlit("kitchen");
    reveal_strlit("cleaning_vacuum");
    reveal_strlit("custom");
    reveal_strlit("support");
    reveal_strlit("sales");
    reveal_strlit("complaint");
    reveal_strlit("escalation");
    assert forall|profile: BackgroundProfile|
        setting(#[trigger] background_label(profile)) == background_label(profile) by {
        lemma_plain_setting(background_label(profile));
    }
    assert forall|tone: ToneProfile|
        setting(#[trigger] tone_label(tone)) == tone_label(tone) by {
        lemma_plain_setting(tone_label(tone));
    }
}

// ---------------------------------------------------------------------------
// Reading a reply
// ---------------------------------------------------------------------------

/// One of four words stands in `s`.
pub open spec fn has_one_of(
    s: Seq<char>,
    a: Seq<char>,
    b: Seq<char>,
    c: Seq<char>,
    d: Seq<char>,
) -> bool {
    text::contains(s, a) || text::contains(s, b) || text::contains(s, c) || text::contains(s, d)
}

/// The tone that the words of a text ask for.
pub open spec fn detected_tone(s: Seq<char>) -> Option<ToneProfile> {
    let low = text::lower(s);
    if has_one_of(low, "angry"@, "upset"@, "complaint"@, "problem"@) {
        Some(ToneProfile::Complaint)
    } else if has_one_of(low, "urgent"@, "immediately"@, "security"@, "fraud"@) {
        Some(ToneProfile::Escalation)
    } else if has_one_of(low, "offer"@, "price"@, "deal"@, "buy"@) {
        Some(ToneProfile::Sales)
    } else {
        None
    }
}

/// The tone that the words of `text` ask for.
pub fn detect_tone(text: &str) -> (res: Option<ToneProfile>)
    ensures
        res == detected_tone(text@),
{
    let low = text::to_ascii_lowercase(text);
    let low = low.as_str();
    if text::contains_text(low, "angry") || text::contains_text(low, "upset")
        || text::contains_text(low, "complaint") || text::contains_text(low, "problem") {
        Some(ToneProfile::Complaint)
    } else if text::contains_text(low, "urgent") || text::contains_text(low, "immediately")
        || text::contains_text(low, "security") || text::contains_text(low, "fraud") {
        Some(ToneProfile::Escalation)
    } else if text::contains_text(low, "offer") || text::contains_text(low, "price")
        || text::contains_text(low, "deal") || text::contains_text(low, "buy") {
        Some(ToneProfile::Sales)
    } else {
        None
    }
}

/// What the punctuation and the length of a text say.
#[derive(Clone, Copy, Debug, PartialEq, Eq, Structural)]
pub struct PunctuationProfile {
    pub has_sentence_end: bool,
    pub long_response: bool,
}

pub open spec fn has_sentence_end(s: Seq<char>) -> bool {
    s.contains('.') || s.contains('?') || s.contains('!')
}

/// A reply of 14 words or more is long.
pub open spec fn is_long(s: Seq<char>) -> bool {
    text::words(s).len() >= 14
}

/// What the punctuation and the length of `text` say.
pub fn punctuation_profile(text: &str) -> (res: PunctuationProfile)
    ensures
        res.has_sentence_end == has_sentence_end(text@),
        res.long_response == is_long(text@),
{
    PunctuationProfile {
        has_sentence_end: text::contains_char(text, '.') || text::contains_char(text, '?')
            || text::contains_char(text, '!'),
        long_response: text::word_count(text) >= 14,
    }
}

/// A text that does not yet begin with an acknowledgement.
pub open spec fn wants_ack(s: Seq<char>) -> bool {
    let low = text::lower(s);
    !(text::starts_with(low, "okay"@) || text::starts_with(low, "sure"@) || text::starts_with(
        low,
        "perfect"@,
    ) || text::starts_with(low, "understood"@) || text::starts_with(low, "i understand"@))
}

/// Whether `text` does not yet begin with an acknowledgement.
pub fn should_add_ack(text: &str) -> (res: bool)
    ensures
        res == wants_ack(text@),
{
    let low = text::to_ascii_lowercase(text);
    let low = low.as_str();
    !(text::starts_with_text(low, "okay") || text::starts_with_text(low, "sure")
        || text::starts_with_text(low, "perfect") || text::starts_with_text(low, "understood")
        || text::starts_with_text(low, "i understand"))
}

// ---------------------------------------------------------------------------
// Changing a reply
// ---------------------------------------------------------------------------

/// `s` with `filler` between commas after what stands before its first space;
/// `s` itself where nothing stands after that space.
pub open spec fn with_filler(s: Seq<char>, filler: Seq<char>) -> Seq<char> {
    let first = text::split(s, text::only(' '))[0];
    if first.len() + 1 >= s.len() {
        s
    } else {
        first + ", "@ + filler + ", "@ + s.skip(first.len() as int + 1)
    }
}

/// `text` with `filler` between commas after its first word.
pub fn insert_after_first_word(text: &str, filler: &str) -> (res: String)
    ensures
        res@ == with_filler(text@, filler@),
{
    let chars = text::chars_of(text);
    let n: usize = chars.len();
    let mut at: usize = 0;
    while at < n && chars[at] != ' '
        invariant
            at <= n,
            n == chars@.len(),
            chars@ == text@,
            forall|i: int| 0 <= i < at ==> text@[i] != ' ',
        decreases n - at,
    {
        at += 1;
    }
    proof {
        text::lemma_split_first(text@, text::only(' '), at as int);
    }
    if at == n || at + 1 == n {
        return text.to_owned();
    }
    let first = text::copy_range(chars.as_slice(), 0, at);
    let rest = text::copy_range(chars.as_slice(), at + 1, n);
    let mut res = text::text_of(first.as_slice());
    res.append(", ");
    res.append(filler);
    res.append(", ");
    res.append(text::text_of(rest.as_slice()).as_str());
    res
}

/// The acknowledgement that fits the tone, by what is picked.
pub open spec fn ack(tone: ToneProfile, pick: int) -> Seq<char> {
    match tone {
        ToneProfile::Sales => if pick == 0 {
            "Great"@
        } else if pick == 1 {
            "Perfect"@
        } else {
            "Absolutely"@
        },
        ToneProfile::Complaint => if pick == 0 {
            "I understand"@
        } else if pick == 1 {
            "I hear you"@
        } else {
            "Okay"@
        },
        ToneProfile::Escalation => if pick == 0 {
            "Understood"@
        } else if pick == 1 {
            "Okay"@
        } else {
            "Right"@
        },
        ToneProfile::Support => if pick == 0 {
            "Sure"@
        } else if pick == 1 {
            "Okay"@
        } else {
            "Perfect"@
        },
    }
}

fn ack_text(tone: ToneProfile, pick: usize) -> (res: &'static str)
    ensures
        res@ == ack(tone, pick as int),
{
    match tone {
        ToneProfile::Sales => if pick == 0 {
            "Great"
        } else if pick == 1 {
            "Perfect"
        } else {
            "Absolutely"
        },
        ToneProfile::Complaint => if pick == 0 {
            "I understand"
        } else if pick == 1 {
            "I hear you"
        } else {
            "Okay"
        },
        ToneProfile::Escalation => if pick == 0 {
            "Understood"
        } else if pick == 1 {
            "Okay"
        } else {
            "Right"
        },
        ToneProfile::Support => if pick == 0 {
            "Sure"
        } else if pick == 1 {
            "Okay"
        } else {
            "Perfect"
        },
    }
}

/// The filler that fits the tone.
pub open spec fn filler(tone: ToneProfile) -> Seq<char> {
    match tone {
        ToneProfile::Sales => "actually"@,
        ToneProfile::Complaint => "just"@,
        ToneProfile::Escalation => "let me be clear"@,
        ToneProfile::Support => "let me just"@,
    }
}

/// A reply with an acknowledgement in front, where it has none.
pub open spec fn acknowledged(raw: Seq<char>, tone: ToneProfile, state: u64) -> Seq<char> {
    if wants_ack(raw) {
        ack(tone, rng::picked(state, 0, 2)) + ", "@ + raw
    } else {
        raw
    }
}

/// The state after the acknowledgement.
pub open spec fn after_ack(raw: Seq<char>, state: u64) -> u64 {
    if wants_ack(raw) {
        rng::next_state(state)
    } else {
        state
    }
}

/// A reply as it is said: acknowledged, and six times in a hundred with a
/// filler, where it has more than six words. An empty reply stays empty.
pub open spec fn spoken_text(raw: Seq<char>, tone: ToneProfile, state: u64) -> Seq<char> {
    if raw.len() == 0 {
        raw
    } else {
        let said = acknowledged(raw, tone, state);
        if rng::comes_up(after_ack(raw, state), 6) && text::words(said).len() > 6 {
            with_filler(said, filler(tone))
        } else {
            said
        }
    }
}

/// The state after a reply was changed to be said.
pub open spec fn after_spoken_text(raw: Seq<char>, state: u64) -> u64 {
    if raw.len() == 0 {
        state
    } else {
        rng::next_state(after_ack(raw, state))
    }
}

/// A reply as it is said.
pub fn humanize_text(raw: &str, tone: ToneProfile, rng: &mut SmallRng) -> (res: String)
    ensures
        res@ == spoken_text(raw@, tone, old(rng).state),
        final(rng).state == after_spoken_text(raw@, old(rng).state),
{
    if raw.is_empty() {
        return raw.to_owned();
    }
    let mut text = raw.to_owned();
    if should_add_ack(raw) {
        let pick: usize = rng.range_usize(0, 2);
        text = ack_text(tone, pick).to_owned();
        text.append(", ");
        text.append(raw);
    }
    if rng.chance(6) && text::word_count(text.as_str()) > 6 {
        let filler = match tone {
            ToneProfile::Sales => "actually",
            ToneProfile::Complaint => "just",
            ToneProfile::Escalation => "let me be clear",
            ToneProfile::Support => "let me just",
        };
        text = insert_after_first_word(text.as_str(), filler);
    }
    text
}

// ---------------------------------------------------------------------------
// Speech
// ---------------------------------------------------------------------------

/// The tone of a text, or `default_tone` where its words ask for none.
pub open spec fn tone_or(s: Seq<char>, default_tone: ToneProfile) -> ToneProfile {
    match detected_tone(s) {
        Some(tone) => tone,
        None => default_tone,
    }
}

/// The words of a text with one space between them.
pub open spec fn normalized(s: Seq<char>) -> Seq<char> {
    text::join(text::words(s), " "@)
}

/// Whether a reply that is not long may still begin with a pause.
pub open spec fn grave(tone: ToneProfile) -> bool {
    tone == ToneProfile::Complaint || tone == ToneProfile::Escalation
}

/// The speech made of a written reply.
pub open spec fn speech_of_response(raw: Seq<char>, default_tone: ToneProfile) -> Speech {
    let tone = tone_or(raw, default_tone);
    let plain = normalized(raw);
    let start = rng::seeded(rng::seed_of(raw));
    let said = spoken_text(plain, tone, start);
    let state = after_spoken_text(plain, start);
    let (pause, state) = if is_long(said) {
        (rng::picked(state, 500, 900), rng::next_state(state))
    } else if grave(tone) {
        let next = rng::next_state(state);
        if rng::comes_up(state, 12) {
            (rng::picked(next, 160, 320), rng::next_state(next))
        } else {
            (0int, next)
        }
    } else {
        (0int, state)
    };
    Speech {
        text: said,
        tone,
        initial_pause_ms: pause,
        breath_after_done: has_sentence_end(said) && rng::comes_up(state, 7),
    }
}

/// The speech made of a text that is said as it stands.
pub open spec fn speech_of_text(s: Seq<char>, default_tone: ToneProfile) -> Speech {
    let start = rng::seeded(rng::seed_of(s));
    let (pause, state) = if is_long(s) {
        (rng::picked(start, 500, 900), rng::next_state(start))
    } else {
        (0int, start)
    };
    Speech {
        text: s,
        tone: tone_or(s, default_tone),
        initial_pause_ms: pause,
        breath_after_done: has_sentence_end(s) && rng::comes_up(state, 7),
    }
}

impl HumanizedSpeech {
    /// The speech made of a written reply.
    pub fn from_response(raw: &str, default_tone: ToneProfile) -> (res: Self)
        ensures
            res@ == speech_of_response(raw@, default_tone),
    {
        let tone = match detect_tone(raw) {
            Some(tone) => tone,
            None => default_tone,
        };
        let mut rng = SmallRng::new(rng::hash_seed(raw));
        let words = text::split_whitespace(raw);
        let plain = text::join_texts(words.as_slice(), " ");
        let text = humanize_text(plain.as_str(), tone, &mut rng);
        let punctuation = punctuation_profile(text.as_str());
        let is_grave = tone == ToneProfile::Complaint || tone == ToneProfile::Escalation;
        let initial_pause_ms: u64 = if punctuation.long_response {
            rng.range_u64(500, 900)
        } else if is_grave && rng.chance(12) {
            rng.range_u64(160, 320)
        } else {
            0
        };
        let breath_after_done = punctuation.has_sentence_end && rng.chance(7);
        HumanizedSpeech { text, tone, initial_pause_ms, breath_after_done }
    }

    /// The speech made of a text that is said as it stands.
    pub fn from_spoken_text(text: &str, default_tone: ToneProfile) -> (res: Self)
        ensures
            res@ == speech_of_text(text@, default_tone),
    {
        let tone = match detect_tone(text) {
            Some(tone) => tone,
            None => default_tone,
        };
        let mut rng = SmallRng::new(rng::hash_seed(text));
        let punctuation = punctuation_profile(text);
        let initial_pause_ms: u64 = if punctuation.long_response {
            rng.range_u64(500, 900)
        } else {
            0
        };
        let breath_after_done = punctuation.has_sentence_end && rng.chance(7);
        HumanizedSpeech { text: text.to_owned(), tone, initial_pause_ms, breath_after_done }
    }
}

/// A pause before speaking is none, short or long: it never lasts longer than
/// 900 ms, and only a long reply or a grave tone has one.
pub proof fn law_pauses_are_bounded(raw: Seq<char>, default_tone: ToneProfile)
    ensures
        ({
            let speech = speech_of_response(raw, default_tone);
            &&& 0 <= speech.initial_pause_ms <= 900
            &&& is_long(speech.text) ==> speech.initial_pause_ms >= 500
            &&& !is_long(speech.text) ==> speech.initial_pause_ms <= 320
            &&& !is_long(speech.text) && !grave(speech.tone) ==> speech.initial_pause_ms == 0
        }),
        ({
            let speech = speech_of_text(raw, default_tone);
            &&& is_long(raw) ==> 500 <= speech.initial_pause_ms <= 900
            &&& !is_long(raw) ==> speech.initial_pause_ms == 0
        }),
{
}

/// A background is chosen by name, in either case and with any white space around
/// it. Any other name is that of an office.
pub proof fn law_backgrounds_are_named(value: Seq<char>)
    ensures
        ({
            let name = text::lower(text::trimmed(value));
            let chosen = background_of(value);
            &&& name == "none"@ || name == "off"@ || name == "silent"@ <==> chosen
                == BackgroundProfile::NoBackground
            &&& name == "coffee"@ || name == "coffee_cafe"@ || name == "cafe"@ || name == "café"@
                ==> chosen == BackgroundProfile::CoffeeCafe
            &&& name == "kitchen"@ ==> chosen == BackgroundProfile::Kitchen
            &&& name == "cleaning"@ || name == "vacuum"@ || name == "cleaning_vacuum"@ ==> chosen
                == BackgroundProfile::CleaningVacuum
            &&& name == "custom"@ ==> chosen == BackgroundProfile::Custom
            &&& chosen == BackgroundProfile::CoffeeCafe ==> name == "coffee"@ || name
                == "coffee_cafe"@ || name == "cafe"@ || name == "café"@
            &&& chosen == BackgroundProfile::Kitchen ==> name == "kitchen"@
            &&& chosen == BackgroundProfile::CleaningVacuum ==> name == "cleaning"@ || name
                == "vacuum"@ || name == "cleaning_vacuum"@
            &&& chosen == BackgroundProfile::Custom ==> name == "custom"@
        }),
{
    reveal_strlit("none");
    reveal_strlit("off");
    reveal_strlit("silent");
    reveal_strlit("coffee");
    reveal_strlit("coffee_cafe");
    reveal_strlit("cafe");
    reveal_strlit("café");
    reveal_strlit("kitchen");
    reveal_strlit("cleaning");
    reveal_strlit("vacuum");
    reveal_strlit("cleaning_vacuum");
    reveal_strlit("custom");
    assert("none"@.len() == 4 && "none"@[0] == 'n');
    assert("off"@.len() == 3);
    assert("silent"@.len() == 6 && "silent"@[0] == 's');
    assert("coffee"@.len() == 6 && "coffee"@[0] == 'c' && "coffee"@[1] == 'o');
    assert("coffee_cafe"@.len() == 11);
    assert("cafe"@.len() == 4 && "cafe"@[0] == 'c');
    assert("café"@.len() == 4 && "café"@[0] == 'c');
    assert("kitchen"@.len() == 7);
    assert("cleaning"@.len() == 8);
    assert("vacuum"@.len() == 6 && "vacuum"@[0] == 'v');
    assert("cleaning_vacuum"@.len() == 15);
    assert("custom"@.len() == 6 && "custom"@[0] == 'c' && "custom"@[1] == 'u');
}

/// A tone is chosen by name, in either case and with any white space around it.
/// Any other name is that of support.
pub proof fn law_tones_are_named(value: Seq<char>)
    ensures
        ({
            let name = text::lower(text::trimmed(value));
            let chosen = tone_of(value);
            &&& name == "sales"@ <==> chosen == ToneProfile::Sales
            &&& name == "complaint"@ || name == "empathetic"@ <==> chosen == ToneProfile::Complaint
            &&& name == "escalation"@ || name == "serious"@ <==> chosen == ToneProfile::Escalation
        }),
{
    reveal_strlit("sales");
    reveal_strlit("complaint");
    reveal_strlit("empathetic");
    reveal_strlit("escalation");
    reveal_strlit("serious");
    assert("sales"@.len() == 5);
    assert("complaint"@.len() == 9);
    assert("empathetic"@.len() == 10 && "empathetic"@[1] == 'm');
    assert("escalation"@.len() == 10 && "escalation"@[1] == 's');
    assert("serious"@.len() == 7);
}

/// The tone of a text is that of a complaint where one of four words of complaint
/// stands in it, in either case; or else grave where one of four words of urgency
/// does; or else that of a sale where one of four words of trade does. Otherwise
/// it has none of its own.
pub proof fn law_words_set_the_tone(s: Seq<char>)
    ensures
        ({
            let low = text::lower(s);
            let upset = text::contains(low, "angry"@) || text::contains(low, "upset"@)
                || text::contains(low, "complaint"@) || text::contains(low, "problem"@);
            let urgent = text::contains(low, "urgent"@) || text::contains(low, "immediately"@)
                || text::contains(low, "security"@) || text::contains(low, "fraud"@);
            let trade = text::contains(low, "offer"@) || text::contains(low, "price"@)
                || text::contains(low, "deal"@) || text::contains(low, "buy"@);
            &&& detected_tone(s) == Some(ToneProfile::Complaint) <==> upset
            &&& detected_tone(s) == Some(ToneProfile::Escalation) <==> urgent && !upset
            &&& detected_tone(s) == Some(ToneProfile::Sales) <==> trade && !urgent && !upset
            &&& detected_tone(s) is None <==> !trade && !urgent && !upset
        }),
{
}

/// A text is long from fourteen words on, and ends a sentence where a full stop, a
/// question mark or an exclamation mark stands anywhere in it.
pub proof fn law_punctuation_profile(text: &str, res: PunctuationProfile, i: int)
    requires
        call_ensures(punctuation_profile, (text,), res),
    ensures
        res.long_response <==> text::words(text@).len() >= 14,
        0 <= i < text@.len() && (text@[i] == '.' || text@[i] == '?' || text@[i] == '!')
            ==> res.has_sentence_end,
        !text@.contains('.') && !text@.contains('?') && !text@.contains('!')
            ==> !res.has_sentence_end,
{
}

/// A text is acknowledged unless it begins, in either case, with one of five
/// acknowledgements.
pub proof fn law_should_add_ack(text: &str, res: bool)
    requires
        call_ensures(should_add_ack, (text,), res),
    ensures
        ({
            let low = text::lower(text@);
            res <==> !(text::starts_with(low, "okay"@) || text::starts_with(low, "sure"@)
                || text::starts_with(low, "perfect"@) || text::starts_with(low, "understood"@)
                || text::starts_with(low, "i understand"@))
        }),
{
}

/// A filler goes behind the first word, with a comma and a space on either side,
/// and the rest follows as it is. A text of one word stays as it is, also with a
/// space at its end.
pub proof fn law_filler_goes_behind_the_first_word(
    first: Seq<char>,
    rest: Seq<char>,
    filler: Seq<char>,
)
    requires
        !first.contains(' '),
    ensures
        with_filler(first, filler) == first,
        with_filler(first.push(' '), filler) == first.push(' '),
        rest.len() > 0 ==> with_filler(first.push(' ') + rest, filler) == first + ", "@ + filler
            + ", "@ + rest,
{
    let sep = text::only(' ');
    let spaced = first.push(' ');
    let all = spaced + rest;
    assert forall|i: int| 0 <= i < first.len() implies !sep(#[trigger] first[i]) by {}
    text::lemma_split_first(first, sep, first.len() as int);
    assert(first.take(first.len() as int) =~= first);
    assert forall|i: int| 0 <= i < first.len() implies !sep(#[trigger] spaced[i]) by {
        assert(spaced[i] == first[i]);
    }
    text::lemma_split_first(spaced, sep, first.len() as int);
    assert(spaced.take(first.len() as int) =~= first);
    assert forall|i: int| 0 <= i < first.len() implies !sep(#[trigger] all[i]) by {
        assert(all[i] == first[i]);
    }
    text::lemma_split_first(all, sep, first.len() as int);
    assert(all.take(first.len() as int) =~= first);
    assert(all.skip(first.len() as int + 1) =~= rest);
}

/// What is said of a reply that is not empty is the reply as it is, behind an
/// acknowledgement of its tone unless it has one; six times in a hundred a filler
/// of its tone is put into it, where it then has more than six words. An empty
/// reply stays empty, and nothing is drawn for it.
pub proof fn law_replies_are_said(raw: Seq<char>, tone: ToneProfile, state: u64)
    ensures
        ({
            let said = spoken_text(raw, tone, state);
            let after = rng::next_state(state);
            let acknowledged = ack(tone, rng::picked(state, 0, 2)) + ", "@ + raw;
            &&& raw.len() == 0 ==> said == raw && after_spoken_text(raw, state) == state
            &&& raw.len() > 0 && !wants_ack(raw) ==> {
                &&& after_spoken_text(raw, state) == after
                &&& said == if rng::comes_up(state, 6) && text::words(raw).len() >= 7 {
                    with_filler(raw, filler(tone))
                } else {
                    raw
                }
            }
            &&& raw.len() > 0 && wants_ack(raw) ==> {
                &&& after_spoken_text(raw, state) == rng::next_state(after)
                &&& said == if rng::comes_up(after, 6) && text::words(acknowledged).len() >= 7 {
                    with_filler(acknowledged, filler(tone))
                } else {
                    acknowledged
                }
            }
        }),
{
}

/// Each tone has three acknowledgements and a filler of its own.
pub proof fn law_tones_have_their_words()
    ensures
        ack(ToneProfile::Sales, 0) == "Great"@,
        ack(ToneProfile::Sales, 1) == "Perfect"@,
        ack(ToneProfile::Sales, 2) == "Absolutely"@,
        ack(ToneProfile::Complaint, 0) == "I understand"@,
        ack(ToneProfile::Complaint, 1) == "I hear you"@,
        ack(ToneProfile::Complaint, 2) == "Okay"@,
        ack(ToneProfile::Escalation, 0) == "Understood"@,
        ack(ToneProfile::Escalation, 1) == "Okay"@,
        ack(ToneProfile::Escalation, 2) == "Right"@,
        ack(ToneProfile::Support, 0) == "Sure"@,
        ack(ToneProfile::Support, 1) == "Okay"@,
        ack(ToneProfile::Support, 2) == "Perfect"@,
        filler(ToneProfile::Sales) == "actually"@,
        filler(ToneProfile::Complaint) == "just"@,
        filler(ToneProfile::Escalation) == "let me be clear"@,
        filler(ToneProfile::Support) == "let me just"@,
{
}

/// Text that is to be said as it stands is said as it stands. It has its own tone,
/// or else that of the call. It is said at once, unless it has fourteen words or
/// more: then half a second to nine tenths later. It is followed by a breath seven
/// times in a hundred, and only where it ends a sentence.
pub proof fn law_spoken_text_is_said(s: Seq<char>, default_tone: ToneProfile)
    ensures
        ({
            let speech = speech_of_text(s, default_tone);
            let seed = rng::seed_of(s);
            let start = if seed == 0 {
                1
            } else {
                seed
            };
            let long = text::words(s).len() >= 14;
            let ended = s.contains('.') || s.contains('?') || s.contains('!');
            &&& speech.text == s
            &&& detected_tone(s) matches Some(tone) ==> speech.tone == tone
            &&& detected_tone(s) is None ==> speech.tone == default_tone
            &&& !long ==> speech.initial_pause_ms == 0
            &&& long ==> speech.initial_pause_ms == rng::picked(start, 500, 900)
            &&& speech.breath_after_done <==> ended && rng::comes_up(
                if long {
                    rng::next_state(start)
                } else {
                    start
                },
                7,
            )
        }),
{
}

/// A reply is said with one space between its words, in its own tone or else that
/// of the call, and so that the same reply is always said alike. A long one is
/// said half a second to nine tenths later; a short one is said later only in a
/// complaint or a grave matter, twelve times in a hundred, and then a sixth to a
/// third of a second.
pub proof fn law_response_is_said(raw: Seq<char>, default_tone: ToneProfile)
    ensures
        ({
            let speech = speech_of_response(raw, default_tone);
            let seed = rng::seed_of(raw);
            let start = if seed == 0 {
                1
            } else {
                seed
            };
            let plain = text::join(text::words(raw), " "@);
            let state = after_spoken_text(plain, start);
            let long = text::words(speech.text).len() >= 14;
            let grave_tone = speech.tone == ToneProfile::Complaint || speech.tone
                == ToneProfile::Escalation;
            let late = rng::comes_up(state, 12);
            let next = rng::next_state(state);
            let ended = speech.text.contains('.') || speech.text.contains('?')
                || speech.text.contains('!');
            &&& detected_tone(raw) matches Some(tone) ==> speech.tone == tone
            &&& detected_tone(raw) is None ==> speech.tone == default_tone
            &&& speech.text == spoken_text(plain, speech.tone, start)
            &&& long ==> speech.initial_pause_ms == rng::picked(state, 500, 900)
                && speech.breath_after_done == (ended && rng::comes_up(next, 7))
            &&& !long && !grave_tone ==> speech.initial_pause_ms == 0 && speech.breath_after_done
                == (ended && rng::comes_up(state, 7))
            &&& !long && grave_tone && late ==> speech.initial_pause_ms == rng::picked(
                next,
                160,
                320,
            ) && speech.breath_after_done == (ended && rng::comes_up(rng::next_state(next), 7))
            &&& !long && grave_tone && !late ==> speech.initial_pause_ms == 0
                && speech.breath_after_done == (ended && rng::comes_up(next, 7))
        }),
{
}

/// The tone of the call matters only to a reply that has none of its own.
pub proof fn law_own_tone_comes_first(raw: Seq<char>, one: ToneProfile, other: ToneProfile)
    requires
        detected_tone(raw) is Some,
    ensures
        speech_of_response(raw, one) == speech_of_response(raw, other),
        speech_of_text(raw, one) == speech_of_text(raw, other),
{
}

/// Settings that are not given are those of a humanized voice in an office, in the
/// tone of support, without sounds of its own. Those that are given count.
pub proof fn law_humanization_defaults(
    config: HumanizationConfig,
    vars: Seq<(Seq<char>, Seq<char>)>,
)
    requires
        config.set_by(vars),
    ensures
        environment::lookup(vars, "HUMANIZATION_ENABLED"@) is None ==> config.enabled,
        environment::lookup(vars, "HUMANIZATION_ENABLED"@) matches Some(value) ==> {
            let low = text::lower(value);
            &&& low == "1"@ || low == "true"@ || low == "yes"@ || low == "on"@ ==> config.enabled
            &&& low == "0"@ || low == "false"@ || low == "no"@ || low == "off"@ ==> !config.enabled
        },
        environment::lookup(vars, "HUMANIZE_BACKGROUND_PROFILE"@) is None
            ==> config.background_profile == BackgroundProfile::Office,
        environment::lookup(vars, "HUMANIZE_BACKGROUND_PROFILE"@) matches Some(value)
            ==> config.background_profile == background_of(value),
        environment::lookup(vars, "HUMANIZE_TONE"@) is None ==> config.tone == ToneProfile::Support,
        environment::lookup(vars, "HUMANIZE_TONE"@) matches Some(value) ==> config.tone == tone_of(
            value,
        ),
        environment::lookup(vars, "HUMANIZE_BACKGROUND_WAVS"@) is None
            ==> config.ambience_paths@.len() == 0,
        environment::lookup(vars, "HUMANIZE_BACKGROUND_WAVS"@) matches Some(value) ==> text::texts(
            config.ambience_paths@,
        ) == environment::list_entries(value),
        environment::lookup(vars, "HUMANIZE_BREATH_WAVS"@) is None
            ==> config.breathing_paths@.len() == 0,
        environment::lookup(vars, "HUMANIZE_BREATH_WAVS"@) matches Some(value) ==> text::texts(
            config.breathing_paths@,
        ) == environment::list_entries(value),
        environment::lookup(vars, "HUMANIZE_OFFICE_FX_WAVS"@) is None
            ==> config.office_fx_paths@.len() == 0,
        environment::lookup(vars, "HUMANIZE_OFFICE_FX_WAVS"@) matches Some(value) ==> text::texts(
            config.office_fx_paths@,
        ) == environment::list_entries(value),
{
    environment::law_switches(vars, "HUMANIZATION_ENABLED"@, true);
    law_labels_name_their_profiles(BackgroundProfile::Office, ToneProfile::Support);
    assert(text::texts(config.ambience_paths@).len() == config.ambience_paths@.len());
    assert(text::texts(config.breathing_paths@).len() == config.breathing_paths@.len());
    assert(text::texts(config.office_fx_paths@).len() == config.office_fx_paths@.len());
}

/// What is recorded of the voice can be read back, each value under its name.
pub proof fn law_humanization_is_written(
    config: HumanizationConfig,
    speaking_gain: JsonTree,
    silence_gain: JsonTree,
)
    ensures
        ({
            let tree = metrics_tree(config, speaking_gain, silence_gain);
            &&& tree.flag_at("enabled"@) == Some(config.enabled)
            &&& tree.text_at("tone"@) == Some(tone_label(config.tone))
            &&& tree.text_at("background_profile"@) == Some(
                background_label(config.background_profile),
            )
            &&& tree.member("speaking_bg_gain"@) == Some(speaking_gain)
            &&& tree.member("silence_bg_gain"@) == Some(silence_gain)
            &&& tree.unsigned_at("ambience_assets"@) == Some(config.ambience_paths@.len() as u64)
            &&& tree.unsigned_at("breath_assets"@) == Some(config.breathing_paths@.len() as u64)
            &&& tree.unsigned_at("office_fx_assets"@) == Some(config.office_fx_paths@.len() as u64)
            &&& tree.flag_at("ambience_configured"@) == Some(config.ambience_paths@.len() > 0)
        }),
{
    reveal_strlit("enabled");
    reveal_strlit("tone");
    reveal_strlit("background_profile");
    reveal_strlit("speaking_bg_gain");
    reveal_strlit("silence_bg_gain");
    reveal_strlit("ambience_assets");
    reveal_strlit("breath_assets");
    reveal_strlit("office_fx_assets");
    reveal_strlit("ambience_configured");
    assert("enabled"@.len() == 7);
    assert("tone"@.len() == 4);
    assert("background_profile"@.len() == 18);
    assert("speaking_bg_gain"@.len() == 16 && "speaking_bg_gain"@[0] == 's');
    assert("silence_bg_gain"@.len() == 15 && "silence_bg_gain"@[0] == 's');
    assert("ambience_assets"@.len() == 15 && "ambience_assets"@[0] == 'a');
    assert("breath_assets"@.len() == 13);
    assert("office_fx_assets"@.len() == 16 && "office_fx_assets"@[0] == 'o');
    assert("ambience_configured"@.len() == 19);
    let entries = seq![
        ("enabled"@, JsonTree::Bool(config.enabled)),
        ("tone"@, JsonTree::Text(tone_label(config.tone))),
        ("background_profile"@, JsonTree::Text(background_label(config.background_profile))),
        ("speaking_bg_gain"@, speaking_gain),
        ("silence_bg_gain"@, silence_gain),
        ("ambience_assets"@, JsonTree::Unsigned(config.ambience_paths@.len() as u64)),
        ("breath_assets"@, JsonTree::Unsigned(config.breathing_paths@.len() as u64)),
        ("office_fx_assets"@, JsonTree::Unsigned(config.office_fx_paths@.len() as u64)),
        ("ambience_configured"@, JsonTree::Bool(config.ambience_paths@.len() > 0)),
    ];
    json::law_object_holds_its_entries(entries, 0);
    json::law_object_holds_its_entries(entries, 1);
    json::law_object_holds_its_entries(entries, 2);
    json::law_object_holds_its_entries(entries, 3);
    json::law_object_holds_its_entries(entries, 4);
    json::law_object_holds_its_entries(entries, 5);
    json::law_object_holds_its_entries(entries, 6);
    json::law_object_holds_its_entries(entries, 7);
    json::law_object_holds_its_entries(entries, 8);
}

/// What is said of text that stands as it is, is that text; and the same text in
/// the same tone is always said alike.
pub proof fn law_from_spoken_text(
    text: &str,
    default_tone: ToneProfile,
    res: HumanizedSpeech,
    again: HumanizedSpeech,
)
    requires
        call_ensures(HumanizedSpeech::from_spoken_text, (text, default_tone), res),
        call_ensures(HumanizedSpeech::from_spoken_text, (text, default_tone), again),
    ensures
        res@.text == text@,
        res@ == again@,
        detected_tone(text@) is None ==> res@.tone == default_tone,
        text::words(text@).len() < 14 ==> res@.initial_pause_ms == 0,
        text::words(text@).len() >= 14 ==> 500 <= res@.initial_pause_ms <= 900,
        !text@.contains('.') && !text@.contains('?') && !text@.contains('!')
            ==> !res@.breath_after_done,
{
    law_pauses_are_bounded(text@, default_tone);
}

/// A reply that begins with an acknowledgement and has at most six words is said
/// word by word as it is; and the same reply in the same tone is always said alike.
pub proof fn law_from_response(
    raw: &str,
    default_tone: ToneProfile,
    res: HumanizedSpeech,
    again: HumanizedSpeech,
)
    requires
        call_ensures(HumanizedSpeech::from_response, (raw, default_tone), res),
        call_ensures(HumanizedSpeech::from_response, (raw, default_tone), again),
    ensures
        res@ == again@,
        detected_tone(raw@) matches Some(tone) ==> res@.tone == tone,
        detected_tone(raw@) is None ==> res@.tone == default_tone,
        ({
            let plain = text::join(text::words(raw@), " "@);
            !wants_ack(plain) && text::words(plain).len() <= 6 ==> res@.text == plain
        }),
        0 <= res@.initial_pause_ms <= 900,
{
    law_pauses_are_bounded(raw@, default_tone);
}

/// Each background and each tone is recorded under its own name.
pub proof fn law_profiles_have_names()
    ensures
        background_label(BackgroundProfile::NoBackground) == "none"@,
        background_label(BackgroundProfile::Office) == "office"@,
        background_label(BackgroundProfile::CoffeeCafe) == "coffee_cafe"@,
        background_label(BackgroundProfile::Kitchen) == "kitchen"@,
        background_label(BackgroundProfile::CleaningVacuum) == "cleaning_vacuum"@,
        background_label(BackgroundProfile::Custom) == "custom"@,
        tone_label(ToneProfile::Support) == "support"@,
        tone_label(ToneProfile::Sales) == "sales"@,
        tone_label(ToneProfile::Complaint) == "complaint"@,
        tone_label(ToneProfile::Escalation) == "escalation"@,
{
}

} // verus!
